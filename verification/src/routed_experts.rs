//! The weights of the routed experts of a model.
use vstd::prelude::*;
use vstd::string::*;

use crate::artifact_error::{data_fault, invalid_safetensors_data, ArtifactFault, ModelArtifactError};
use crate::listing::sorted;
use crate::order::map_of;
use crate::ordered_map::{in_order, ExpertPlace, OrderedKey, OrderedMap};
use crate::safetensors::{span_entries, SafetensorsTensorSpan, TensorSpan};
use crate::safetensors_manifest::{covers, Manifest, SafetensorsManifest, ShardReads};
use crate::safetensors_spans::{all_spans, Reads};
use crate::tensor_names::{
    expert_weight_name, parse_routed_expert_weight_name, SafetensorsRoutedExpertProjection,
    SafetensorsRoutedExpertWeightComponent,
};
use crate::text::{cat5, decimal, decimal_usize};

verus! {

/// A tensor of a routed expert and where it lies.
#[derive(Clone, Debug, PartialEq, Eq)]
pub struct SafetensorsRoutedExpertWeightSpan {
    pub tensor_name: String,
    pub layer_id: usize,
    pub expert_id: usize,
    pub projection: SafetensorsRoutedExpertProjection,
    pub component: SafetensorsRoutedExpertWeightComponent,
    pub span: SafetensorsTensorSpan,
}

/// What a [`SafetensorsRoutedExpertWeightSpan`] says.
pub struct ExpertWeight {
    pub tensor_name: Seq<char>,
    pub layer_id: nat,
    pub expert_id: nat,
    pub projection: SafetensorsRoutedExpertProjection,
    pub component: SafetensorsRoutedExpertWeightComponent,
    pub span: TensorSpan,
}

impl View for SafetensorsRoutedExpertWeightSpan {
    type V = ExpertWeight;

    open spec fn view(&self) -> ExpertWeight {
        ExpertWeight {
            tensor_name: self.tensor_name@,
            layer_id: self.layer_id as nat,
            expert_id: self.expert_id as nat,
            projection: self.projection,
            component: self.component,
            span: self.span@,
        }
    }
}

/// Several tensors of routed experts.
pub open spec fn expert_weights(spans: Seq<SafetensorsRoutedExpertWeightSpan>) -> Seq<
    ExpertWeight,
> {
    spans.map_values(|span: SafetensorsRoutedExpertWeightSpan| span@)
}

/// Those of the tensors that belong to routed experts.
pub open spec fn weights_of_experts(entries: Seq<(Seq<char>, TensorSpan)>) -> Seq<ExpertWeight>
    decreases entries.len(),
{
    if entries.len() == 0 {
        Seq::empty()
    } else {
        let (name, span) = entries.last();
        let before = weights_of_experts(entries.drop_last());
        match expert_weight_name(name) {
            Some(weight) => before.push(
                ExpertWeight {
                    tensor_name: name,
                    layer_id: weight.layer_id,
                    expert_id: weight.expert_id,
                    projection: weight.projection,
                    component: weight.component,
                    span,
                },
            ),
            None => before,
        }
    }
}

/// The tensors of the routed experts of a model.
pub open spec fn expert_spans(manifest: Manifest, reads: Reads) -> Result<
    Seq<ExpertWeight>,
    ArtifactFault,
> {
    match all_spans(manifest, reads) {
        Ok(entries) => Ok(weights_of_experts(entries)),
        Err(fault) => Err(fault),
    }
}

impl SafetensorsManifest {
    /// The tensors of the routed experts, in the order in which all tensors are listed.
    pub fn routed_expert_weight_spans(&self, reads: &ShardReads) -> (spans: Result<
        Vec<SafetensorsRoutedExpertWeightSpan>,
        ModelArtifactError,
    >)
        requires
            self.wf(),
            reads.wf(),
            covers(reads@, self@.shard_paths),
        ensures
            match spans {
                Ok(list) => expert_spans(self@, reads@) == Ok::<Seq<ExpertWeight>, ArtifactFault>(
                    expert_weights(list@),
                ),
                Err(e) => expert_spans(self@, reads@) == Err::<Seq<ExpertWeight>, ArtifactFault>(
                    e@,
                ),
            },
    {
        let entries = match self.tensor_span_entries(reads) {
            Ok(entries) => entries,
            Err(error) => {
                return Err(error);
            },
        };
        let ghost all = span_entries(entries@);
        let mut spans: Vec<SafetensorsRoutedExpertWeightSpan> = Vec::new();
        let mut i: usize = 0;
        proof {
            assert(expert_weights(spans@) =~= weights_of_experts(all.take(0)));
        }
        while i < entries.len()
            invariant
                i <= entries@.len(),
                all == span_entries(entries@),
                expert_weights(spans@) == weights_of_experts(all.take(i as int)),
            decreases entries@.len() - i,
        {
            let ghost before = expert_weights(spans@);
            let entry = &entries[i];
            proof {
                assert(all[i as int] == (entry.0@, entry.1@));
                assert(all.take(i + 1).drop_last() =~= all.take(i as int));
                assert(all.take(i + 1).last() == all[i as int]);
            }
            if let Some(name) = parse_routed_expert_weight_name(entry.0.as_str()) {
                spans.push(
                    SafetensorsRoutedExpertWeightSpan {
                        tensor_name: entry.0.clone(),
                        layer_id: name.layer_id,
                        expert_id: name.expert_id,
                        projection: name.projection,
                        component: name.component,
                        span: entry.1.copy(),
                    },
                );
                proof {
                    assert(expert_weights(spans@) =~= before.push(spans@.last()@));
                }
            }
            i = i + 1;
        }
        proof {
            assert(all.take(i as int) =~= all);
        }
        Ok(spans)
    }
}

/// The tensors of a packed projection.
#[derive(Clone, Debug, PartialEq, Eq)]
pub struct SafetensorsCompressedInt4ProjectionWeights {
    pub packed: SafetensorsTensorSpan,
    pub scale: SafetensorsTensorSpan,
    pub shape: SafetensorsTensorSpan,
}

/// The tensors of a projection.
#[derive(Clone, Debug, PartialEq, Eq)]
pub enum SafetensorsRoutedExpertProjectionWeights {
    Unquantized { weight: SafetensorsTensorSpan },
    CompressedTensorsInt4(Box<SafetensorsCompressedInt4ProjectionWeights>),
}

/// What a [`SafetensorsRoutedExpertProjectionWeights`] says.
pub enum ProjectionWeights {
    Unquantized { weight: TensorSpan },
    CompressedTensorsInt4 { packed: TensorSpan, scale: TensorSpan, shape: TensorSpan },
}

impl View for SafetensorsRoutedExpertProjectionWeights {
    type V = ProjectionWeights;

    open spec fn view(&self) -> ProjectionWeights {
        match *self {
            SafetensorsRoutedExpertProjectionWeights::Unquantized { weight } => {
                ProjectionWeights::Unquantized { weight: weight@ }
            },
            SafetensorsRoutedExpertProjectionWeights::CompressedTensorsInt4(parts) => {
                ProjectionWeights::CompressedTensorsInt4 {
                    packed: parts.packed@,
                    scale: parts.scale@,
                    shape: parts.shape@,
                }
            },
        }
    }
}

impl ProjectionWeights {
    /// The number of tensors of a projection.
    pub open spec fn tensor_count(self) -> nat {
        match self {
            ProjectionWeights::Unquantized { weight } => 1,
            ProjectionWeights::CompressedTensorsInt4 { packed, scale, shape } => 3,
        }
    }
}

impl SafetensorsRoutedExpertProjectionWeights {
    /// The number of tensors of the projection.
    pub fn tensor_count(&self) -> (count: usize)
        ensures
            count == self@.tensor_count(),
    {
        match self {
            SafetensorsRoutedExpertProjectionWeights::Unquantized { .. } => 1,
            SafetensorsRoutedExpertProjectionWeights::CompressedTensorsInt4(_) => 3,
        }
    }
}

/// The weights of a routed expert.
#[derive(Clone, Debug, PartialEq, Eq)]
pub struct SafetensorsRoutedExpertWeightGroup {
    pub layer_id: usize,
    pub expert_id: usize,
    pub gate: SafetensorsRoutedExpertProjectionWeights,
    pub up: SafetensorsRoutedExpertProjectionWeights,
    pub down: SafetensorsRoutedExpertProjectionWeights,
}

/// What a [`SafetensorsRoutedExpertWeightGroup`] says.
pub struct ExpertGroup {
    pub layer_id: nat,
    pub expert_id: nat,
    pub gate: ProjectionWeights,
    pub up: ProjectionWeights,
    pub down: ProjectionWeights,
}

impl View for SafetensorsRoutedExpertWeightGroup {
    type V = ExpertGroup;

    open spec fn view(&self) -> ExpertGroup {
        ExpertGroup {
            layer_id: self.layer_id as nat,
            expert_id: self.expert_id as nat,
            gate: self.gate@,
            up: self.up@,
            down: self.down@,
        }
    }
}

impl ExpertGroup {
    /// The number of tensors of a routed expert.
    pub open spec fn tensor_count(self) -> nat {
        self.gate.tensor_count() + self.up.tensor_count() + self.down.tensor_count()
    }
}

impl SafetensorsRoutedExpertWeightGroup {
    /// The number of tensors of the expert.
    pub fn tensor_count(&self) -> (count: usize)
        ensures
            count == self@.tensor_count(),
    {
        self.gate.tensor_count() + self.up.tensor_count() + self.down.tensor_count()
    }
}

/// Several routed experts.
pub open spec fn expert_groups(groups: Seq<SafetensorsRoutedExpertWeightGroup>) -> Seq<
    ExpertGroup,
> {
    groups.map_values(|group: SafetensorsRoutedExpertWeightGroup| group@)
}

/// The tensors of a projection that have been found.
#[derive(Debug)]
struct RoutedExpertProjectionBuilder {
    weight: Option<SafetensorsTensorSpan>,
    packed: Option<SafetensorsTensorSpan>,
    scale: Option<SafetensorsTensorSpan>,
    shape: Option<SafetensorsTensorSpan>,
}

/// The tensors of a projection that have been found.
pub struct ProjectionParts {
    pub weight: Option<TensorSpan>,
    pub packed: Option<TensorSpan>,
    pub scale: Option<TensorSpan>,
    pub shape: Option<TensorSpan>,
}

/// A tensor that may have been found.
pub open spec fn found(span: Option<SafetensorsTensorSpan>) -> Option<TensorSpan> {
    match span {
        Some(s) => Some(s@),
        None => None,
    }
}

impl View for RoutedExpertProjectionBuilder {
    type V = ProjectionParts;

    closed spec fn view(&self) -> ProjectionParts {
        ProjectionParts {
            weight: found(self.weight),
            packed: found(self.packed),
            scale: found(self.scale),
            shape: found(self.shape),
        }
    }
}

/// No tensor of a projection has been found.
pub open spec fn no_parts() -> ProjectionParts {
    ProjectionParts { weight: None, packed: None, scale: None, shape: None }
}

/// The name of a component.
pub open spec fn component_name(component: SafetensorsRoutedExpertWeightComponent) -> Seq<char> {
    match component {
        SafetensorsRoutedExpertWeightComponent::Weight => "Weight"@,
        SafetensorsRoutedExpertWeightComponent::PackedWeight => "PackedWeight"@,
        SafetensorsRoutedExpertWeightComponent::WeightScale => "WeightScale"@,
        SafetensorsRoutedExpertWeightComponent::WeightShape => "WeightShape"@,
    }
}

fn name_of_component(component: SafetensorsRoutedExpertWeightComponent) -> (name: &'static str)
    ensures
        name@ == component_name(component),
{
    match component {
        SafetensorsRoutedExpertWeightComponent::Weight => "Weight",
        SafetensorsRoutedExpertWeightComponent::PackedWeight => "PackedWeight",
        SafetensorsRoutedExpertWeightComponent::WeightScale => "WeightScale",
        SafetensorsRoutedExpertWeightComponent::WeightShape => "WeightShape",
    }
}

/// Where an expert stands.
pub open spec fn at_expert(layer_id: nat, expert_id: nat) -> Seq<char> {
    "layer "@ + decimal(layer_id) + " expert "@ + decimal(expert_id)
}

fn expert_text(layer_id: usize, expert_id: usize) -> (text: String)
    ensures
        text@ == at_expert(layer_id as nat, expert_id as nat),
{
    crate::text::cat4(
        "layer ",
        decimal_usize(layer_id).as_str(),
        " expert ",
        decimal_usize(expert_id).as_str(),
    )
}

impl ProjectionParts {
    /// The component that has been found.
    pub open spec fn component(
        self,
        component: SafetensorsRoutedExpertWeightComponent,
    ) -> Option<TensorSpan> {
        match component {
            SafetensorsRoutedExpertWeightComponent::Weight => self.weight,
            SafetensorsRoutedExpertWeightComponent::PackedWeight => self.packed,
            SafetensorsRoutedExpertWeightComponent::WeightScale => self.scale,
            SafetensorsRoutedExpertWeightComponent::WeightShape => self.shape,
        }
    }

    /// The parts with one component more, which must not have been found before.
    pub open spec fn with(
        self,
        component: SafetensorsRoutedExpertWeightComponent,
        span: TensorSpan,
        layer_id: nat,
        expert_id: nat,
    ) -> Result<ProjectionParts, ArtifactFault> {
        if self.component(component) is Some {
            Err(
                data_fault(
                    span.path,
                    "duplicate routed expert weight component "@ + component_name(component)
                        + " for "@ + at_expert(layer_id, expert_id),
                ),
            )
        } else {
            Ok(
                match component {
                    SafetensorsRoutedExpertWeightComponent::Weight => ProjectionParts {
                        weight: Some(span),
                        ..self
                    },
                    SafetensorsRoutedExpertWeightComponent::PackedWeight => ProjectionParts {
                        packed: Some(span),
                        ..self
                    },
                    SafetensorsRoutedExpertWeightComponent::WeightScale => ProjectionParts {
                        scale: Some(span),
                        ..self
                    },
                    SafetensorsRoutedExpertWeightComponent::WeightShape => ProjectionParts {
                        shape: Some(span),
                        ..self
                    },
                },
            )
        }
    }

    /// The tensors of the projection: a weight alone, or all parts of a packed one.
    pub open spec fn finished(
        self,
        path: Seq<char>,
        layer_id: nat,
        expert_id: nat,
        projection: Seq<char>,
    ) -> Result<ProjectionWeights, ArtifactFault> {
        match (self.weight, self.packed, self.scale, self.shape) {
            (Some(weight), None, None, None) => Ok(ProjectionWeights::Unquantized { weight }),
            (None, Some(packed), Some(scale), Some(shape)) => Ok(
                ProjectionWeights::CompressedTensorsInt4 { packed, scale, shape },
            ),
            (None, None, None, None) => Err(
                data_fault(
                    path,
                    "routed expert weight group for "@ + at_expert(layer_id, expert_id)
                        + " is missing "@ + projection + " projection"@,
                ),
            ),
            _ => Err(
                data_fault(
                    path,
                    "routed expert "@ + projection + " projection for "@ + at_expert(
                        layer_id,
                        expert_id,
                    )
                        + " mixes unquantized and incomplete compressed-tensors components"@,
                ),
            ),
        }
    }
}

impl RoutedExpertProjectionBuilder {
    fn new() -> (builder: RoutedExpertProjectionBuilder)
        ensures
            builder@ == no_parts(),
    {
        RoutedExpertProjectionBuilder { weight: None, packed: None, scale: None, shape: None }
    }

    fn insert(
        &mut self,
        component: SafetensorsRoutedExpertWeightComponent,
        span: SafetensorsTensorSpan,
        layer_id: usize,
        expert_id: usize,
    ) -> (inserted: Result<(), ModelArtifactError>)
        ensures
            match inserted {
                Ok(_) => old(self)@.with(component, span@, layer_id as nat, expert_id as nat)
                    == Ok::<ProjectionParts, ArtifactFault>(final(self)@),
                Err(e) => old(self)@.with(component, span@, layer_id as nat, expert_id as nat)
                    == Err::<ProjectionParts, ArtifactFault>(e@),
            },
    {
        let taken = match component {
            SafetensorsRoutedExpertWeightComponent::Weight => self.weight.is_some(),
            SafetensorsRoutedExpertWeightComponent::PackedWeight => self.packed.is_some(),
            SafetensorsRoutedExpertWeightComponent::WeightScale => self.scale.is_some(),
            SafetensorsRoutedExpertWeightComponent::WeightShape => self.shape.is_some(),
        };
        if taken {
            let text = crate::text::cat4(
                "duplicate routed expert weight component ",
                name_of_component(component),
                " for ",
                expert_text(layer_id, expert_id).as_str(),
            );
            return Err(invalid_safetensors_data(span.path.as_str(), text));
        }
        match component {
            SafetensorsRoutedExpertWeightComponent::Weight => {
                self.weight = Some(span);
            },
            SafetensorsRoutedExpertWeightComponent::PackedWeight => {
                self.packed = Some(span);
            },
            SafetensorsRoutedExpertWeightComponent::WeightScale => {
                self.scale = Some(span);
            },
            SafetensorsRoutedExpertWeightComponent::WeightShape => {
                self.shape = Some(span);
            },
        }
        Ok(())
    }

    fn finish(&self, path: &str, layer_id: usize, expert_id: usize, projection: &str) -> (weights:
        Result<SafetensorsRoutedExpertProjectionWeights, ModelArtifactError>)
        ensures
            match weights {
                Ok(w) => self@.finished(path@, layer_id as nat, expert_id as nat, projection@)
                    == Ok::<ProjectionWeights, ArtifactFault>(w@),
                Err(e) => self@.finished(path@, layer_id as nat, expert_id as nat, projection@)
                    == Err::<ProjectionWeights, ArtifactFault>(e@),
            },
    {
        match (&self.weight, &self.packed, &self.scale, &self.shape) {
            (Some(weight), None, None, None) => Ok(
                SafetensorsRoutedExpertProjectionWeights::Unquantized { weight: weight.copy() },
            ),
            (None, Some(packed), Some(scale), Some(shape)) => Ok(
                SafetensorsRoutedExpertProjectionWeights::CompressedTensorsInt4(
                    Box::new(
                        SafetensorsCompressedInt4ProjectionWeights {
                            packed: packed.copy(),
                            scale: scale.copy(),
                            shape: shape.copy(),
                        },
                    ),
                ),
            ),
            (None, None, None, None) => Err(
                invalid_safetensors_data(
                    path,
                    cat5(
                        "routed expert weight group for ",
                        expert_text(layer_id, expert_id).as_str(),
                        " is missing ",
                        projection,
                        " projection",
                    ),
                ),
            ),
            _ => Err(
                invalid_safetensors_data(
                    path,
                    cat5(
                        "routed expert ",
                        projection,
                        " projection for ",
                        expert_text(layer_id, expert_id).as_str(),
                        " mixes unquantized and incomplete compressed-tensors components",
                    ),
                ),
            ),
        }
    }
}

/// The tensors of an expert that have been found, and the shard of the first of them.
#[derive(Debug)]
struct RoutedExpertWeightGroupBuilder {
    gate: RoutedExpertProjectionBuilder,
    up: RoutedExpertProjectionBuilder,
    down: RoutedExpertProjectionBuilder,
    error_path: String,
}

/// The tensors of an expert that have been found, and the shard of the first of them.
pub struct ExpertParts {
    pub gate: ProjectionParts,
    pub up: ProjectionParts,
    pub down: ProjectionParts,
    pub error_path: Seq<char>,
}

impl View for RoutedExpertWeightGroupBuilder {
    type V = ExpertParts;

    closed spec fn view(&self) -> ExpertParts {
        ExpertParts {
            gate: self.gate@,
            up: self.up@,
            down: self.down@,
            error_path: self.error_path@,
        }
    }
}

impl ExpertParts {
    /// No tensor of an expert has been found but that of the shard at `path`.
    pub open spec fn none(path: Seq<char>) -> ExpertParts {
        ExpertParts { gate: no_parts(), up: no_parts(), down: no_parts(), error_path: path }
    }

    /// The parts with one tensor more.
    pub open spec fn with(self, weight: ExpertWeight) -> Result<ExpertParts, ArtifactFault> {
        let before = match weight.projection {
            SafetensorsRoutedExpertProjection::Gate => self.gate,
            SafetensorsRoutedExpertProjection::Up => self.up,
            SafetensorsRoutedExpertProjection::Down => self.down,
        };
        match before.with(weight.component, weight.span, weight.layer_id, weight.expert_id) {
            Ok(after) => Ok(
                match weight.projection {
                    SafetensorsRoutedExpertProjection::Gate => ExpertParts { gate: after, ..self },
                    SafetensorsRoutedExpertProjection::Up => ExpertParts { up: after, ..self },
                    SafetensorsRoutedExpertProjection::Down => ExpertParts { down: after, ..self },
                },
            ),
            Err(fault) => Err(fault),
        }
    }

    /// The weights of the expert.
    pub open spec fn finished(self, place: ExpertPlace) -> Result<ExpertGroup, ArtifactFault> {
        let layer_id = place.layer_id as nat;
        let expert_id = place.expert_id as nat;
        match self.gate.finished(self.error_path, layer_id, expert_id, "gate"@) {
            Err(fault) => Err(fault),
            Ok(gate) => match self.up.finished(self.error_path, layer_id, expert_id, "up"@) {
                Err(fault) => Err(fault),
                Ok(up) => match self.down.finished(
                    self.error_path,
                    layer_id,
                    expert_id,
                    "down"@,
                ) {
                    Err(fault) => Err(fault),
                    Ok(down) => Ok(ExpertGroup { layer_id, expert_id, gate, up, down }),
                },
            },
        }
    }
}

impl RoutedExpertWeightGroupBuilder {
    fn new(path: &str) -> (builder: RoutedExpertWeightGroupBuilder)
        ensures
            builder@ == ExpertParts::none(path@),
    {
        RoutedExpertWeightGroupBuilder {
            gate: RoutedExpertProjectionBuilder::new(),
            up: RoutedExpertProjectionBuilder::new(),
            down: RoutedExpertProjectionBuilder::new(),
            error_path: path.to_owned(),
        }
    }

    fn insert(&mut self, weight: &SafetensorsRoutedExpertWeightSpan) -> (inserted: Result<
        (),
        ModelArtifactError,
    >)
        ensures
            match inserted {
                Ok(_) => old(self)@.with(weight@) == Ok::<ExpertParts, ArtifactFault>(
                    final(self)@,
                ),
                Err(e) => old(self)@.with(weight@) == Err::<ExpertParts, ArtifactFault>(e@),
            },
    {
        match weight.projection {
            SafetensorsRoutedExpertProjection::Gate => self.gate.insert(
                weight.component,
                weight.span.copy(),
                weight.layer_id,
                weight.expert_id,
            ),
            SafetensorsRoutedExpertProjection::Up => self.up.insert(
                weight.component,
                weight.span.copy(),
                weight.layer_id,
                weight.expert_id,
            ),
            SafetensorsRoutedExpertProjection::Down => self.down.insert(
                weight.component,
                weight.span.copy(),
                weight.layer_id,
                weight.expert_id,
            ),
        }
    }

    fn finish(&self, place: ExpertPlace) -> (group: Result<
        SafetensorsRoutedExpertWeightGroup,
        ModelArtifactError,
    >)
        ensures
            match group {
                Ok(g) => self@.finished(place) == Ok::<ExpertGroup, ArtifactFault>(g@),
                Err(e) => self@.finished(place) == Err::<ExpertGroup, ArtifactFault>(e@),
            },
    {
        let path = self.error_path.as_str();
        let gate = match self.gate.finish(path, place.layer_id, place.expert_id, "gate") {
            Ok(gate) => gate,
            Err(error) => {
                return Err(error);
            },
        };
        let up = match self.up.finish(path, place.layer_id, place.expert_id, "up") {
            Ok(up) => up,
            Err(error) => {
                return Err(error);
            },
        };
        match self.down.finish(path, place.layer_id, place.expert_id, "down") {
            Ok(down) => Ok(
                SafetensorsRoutedExpertWeightGroup {
                    layer_id: place.layer_id,
                    expert_id: place.expert_id,
                    gate,
                    up,
                    down,
                },
            ),
            Err(error) => Err(error),
        }
    }
}

/// The place of the expert of a tensor.
pub open spec fn place_of(weight: ExpertWeight) -> ExpertPlace {
    ExpertPlace { layer_id: weight.layer_id as usize, expert_id: weight.expert_id as usize }
}

/// What has been found of each expert.
pub open spec fn gathered(weights: Seq<ExpertWeight>) -> Result<
    Map<ExpertPlace, ExpertParts>,
    ArtifactFault,
>
    decreases weights.len(),
{
    if weights.len() == 0 {
        Ok(Map::empty())
    } else {
        let weight = weights.last();
        match gathered(weights.drop_last()) {
            Err(fault) => Err(fault),
            Ok(before) => {
                let parts = if before.dom().contains(place_of(weight)) {
                    before[place_of(weight)]
                } else {
                    ExpertParts::none(weight.span.path)
                };
                match parts.with(weight) {
                    Ok(after) => Ok(before.insert(place_of(weight), after)),
                    Err(fault) => Err(fault),
                }
            },
        }
    }
}

/// The weights of the first `n` experts.
pub open spec fn finished_groups(experts: Seq<(ExpertPlace, ExpertParts)>, n: nat) -> Result<
    Seq<ExpertGroup>,
    ArtifactFault,
>
    decreases n,
{
    if n == 0 || n > experts.len() {
        Ok(Seq::empty())
    } else {
        match finished_groups(experts, (n - 1) as nat) {
            Err(fault) => Err(fault),
            Ok(before) => match experts[n - 1].1.finished(experts[n - 1].0) {
                Ok(group) => Ok(before.push(group)),
                Err(fault) => Err(fault),
            },
        }
    }
}

/// The weights of each expert, by layer and number, from all their tensors.
pub open spec fn grouped(weights: Seq<ExpertWeight>) -> Result<Seq<ExpertGroup>, ArtifactFault> {
    match gathered(weights) {
        Err(fault) => Err(fault),
        Ok(parts) => {
            let experts = sorted::<ExpertPlace, ExpertParts>(parts);
            finished_groups(experts, experts.len())
        },
    }
}

/// The weights of each routed expert of a model.
pub open spec fn group_spans(manifest: Manifest, reads: Reads) -> Result<
    Seq<ExpertGroup>,
    ArtifactFault,
> {
    match expert_spans(manifest, reads) {
        Ok(weights) => grouped(weights),
        Err(fault) => Err(fault),
    }
}

proof fn lemma_gathering_fault_stays(weights: Seq<ExpertWeight>, n: int)
    requires
        0 <= n <= weights.len(),
        gathered(weights.take(n)) is Err,
    ensures
        gathered(weights) == gathered(weights.take(n)),
    decreases weights.len() - n,
{
    if n < weights.len() {
        assert(weights.take(n + 1).drop_last() =~= weights.take(n));
        lemma_gathering_fault_stays(weights, n + 1);
    } else {
        assert(weights.take(n) =~= weights);
    }
}

proof fn lemma_finishing_fault_stays(experts: Seq<(ExpertPlace, ExpertParts)>, n: nat, m: nat)
    requires
        n <= m <= experts.len(),
        finished_groups(experts, n) is Err,
    ensures
        finished_groups(experts, m) == finished_groups(experts, n),
    decreases m - n,
{
    if n < m {
        lemma_finishing_fault_stays(experts, n, (m - 1) as nat);
    }
}

proof fn lemma_finished_places(experts: Seq<(ExpertPlace, ExpertParts)>, n: nat)
    requires
        n <= experts.len(),
        finished_groups(experts, n) is Ok,
    ensures
        finished_groups(experts, n)->Ok_0.len() == n,
        forall|i: int|
            0 <= i < n ==> group_place(#[trigger] finished_groups(experts, n)->Ok_0[i])
                == experts[i].0,
    decreases n,
{
    if n > 0 {
        lemma_finished_places(experts, (n - 1) as nat);
        let before = finished_groups(experts, (n - 1) as nat)->Ok_0;
        let groups = finished_groups(experts, n)->Ok_0;
        assert forall|i: int| 0 <= i < n implies group_place(#[trigger] groups[i])
            == experts[i].0 by {
            if i < n - 1 {
                assert(groups[i] == before[i]);
            }
        }
    }
}

/// The place of an expert.
pub open spec fn group_place(group: ExpertGroup) -> ExpertPlace {
    ExpertPlace { layer_id: group.layer_id as usize, expert_id: group.expert_id as usize }
}

/// Whether experts come in the order of their layers and numbers, each once.
pub open spec fn groups_in_order(groups: Seq<ExpertGroup>) -> bool {
    forall|i: int, j: int|
        0 <= i < j < groups.len() ==> ExpertPlace::before(
            group_place(#[trigger] groups[i]),
            group_place(#[trigger] groups[j]),
        )
}

fn gather(weights: &Vec<SafetensorsRoutedExpertWeightSpan>) -> (builders: Result<
    OrderedMap<ExpertPlace, RoutedExpertWeightGroupBuilder>,
    ModelArtifactError,
>)
    ensures
        match builders {
            Ok(b) => b.wf() && gathered(expert_weights(weights@)) == Ok::<
                Map<ExpertPlace, ExpertParts>,
                ArtifactFault,
            >(map_of(b.listed())),
            Err(e) => gathered(expert_weights(weights@)) == Err::<
                Map<ExpertPlace, ExpertParts>,
                ArtifactFault,
            >(e@),
        },
{
    let ghost all = expert_weights(weights@);
    let mut builders: OrderedMap<ExpertPlace, RoutedExpertWeightGroupBuilder> = OrderedMap::new();
    let mut i: usize = 0;
    proof {
        assert(builders.listed() =~= Seq::<(ExpertPlace, ExpertParts)>::empty());
        assert(all.take(0) =~= Seq::empty());
    }
    while i < weights.len()
        invariant
            i <= weights@.len(),
            all == expert_weights(weights@),
            builders.wf(),
            gathered(all.take(i as int)) == Ok::<Map<ExpertPlace, ExpertParts>, ArtifactFault>(
                map_of(builders.listed()),
            ),
        decreases weights@.len() - i,
    {
        let weight = &weights[i];
        proof {
            assert(all[i as int] == weight@);
            assert(all.take(i + 1).drop_last() =~= all.take(i as int));
            assert(all.take(i + 1).last() == all[i as int]);
        }
        let ghost before = map_of(builders.listed());
        let place = ExpertPlace { layer_id: weight.layer_id, expert_id: weight.expert_id };
        let mut builder = match builders.take_out(&place) {
            Some(builder) => builder,
            None => RoutedExpertWeightGroupBuilder::new(weight.span.path.as_str()),
        };
        match builder.insert(weight) {
            Ok(_) => {
                let ghost parts = builder@;
                builders.set(place, builder);
                proof {
                    assert(map_of(builders.listed()) =~= before.insert(place, parts));
                }
            },
            Err(error) => {
                proof {
                    lemma_gathering_fault_stays(all, i + 1);
                }
                return Err(error);
            },
        }
        i = i + 1;
    }
    proof {
        assert(all.take(i as int) =~= all);
    }
    Ok(builders)
}

/// The weights of each expert, by layer and number, from all their tensors.
pub fn group_weights(weights: &Vec<SafetensorsRoutedExpertWeightSpan>) -> (groups: Result<
    Vec<SafetensorsRoutedExpertWeightGroup>,
    ModelArtifactError,
>)
    ensures
        match groups {
            Ok(list) => grouped(expert_weights(weights@)) == Ok::<Seq<ExpertGroup>, ArtifactFault>(
                expert_groups(list@),
            ) && groups_in_order(expert_groups(list@)),
            Err(e) => grouped(expert_weights(weights@)) == Err::<Seq<ExpertGroup>, ArtifactFault>(
                e@,
            ),
        },
{
    let builders = match gather(weights) {
        Ok(builders) => builders,
        Err(error) => {
            return Err(error);
        },
    };
    let ghost experts = builders.listed();
    let mut groups: Vec<SafetensorsRoutedExpertWeightGroup> = Vec::new();
    let total: usize = builders.len();
    let mut i: usize = 0;
    proof {
        builders.lemma_listed();
        assert(expert_groups(groups@) =~= Seq::empty());
    }
    while i < total
        invariant
            i <= total,
            total == builders.pairs().len(),
            total == experts.len(),
            experts == builders.listed(),
            in_order::<ExpertPlace, ExpertParts>(experts),
            gathered(expert_weights(weights@)) is Ok,
            experts == sorted::<ExpertPlace, ExpertParts>(
                gathered(expert_weights(weights@))->Ok_0,
            ),
            finished_groups(experts, i as nat) == Ok::<Seq<ExpertGroup>, ArtifactFault>(
                expert_groups(groups@),
            ),
        decreases total - i,
    {
        let ghost before = expert_groups(groups@);
        let place = *builders.key_at(i);
        let builder = builders.value_at(i);
        proof {
            assert(experts[i as int] == (place, builder@));
        }
        match builder.finish(place) {
            Ok(group) => {
                groups.push(group);
                proof {
                    assert(expert_groups(groups@) =~= before.push(group@));
                }
            },
            Err(error) => {
                proof {
                    lemma_finishing_fault_stays(experts, (i + 1) as nat, experts.len());
                }
                return Err(error);
            },
        }
        i = i + 1;
    }
    proof {
        let list = expert_groups(groups@);
        lemma_finished_places(experts, experts.len());
        assert forall|a: int, b: int| 0 <= a < b < list.len() implies ExpertPlace::before(
            group_place(#[trigger] list[a]),
            group_place(#[trigger] list[b]),
        ) by {
            assert(ExpertPlace::before(experts[a].0, experts[b].0));
        }
    }
    Ok(groups)
}

impl SafetensorsManifest {
    /// The weights of each routed expert, by layer and number.
    pub fn routed_expert_weight_groups(&self, reads: &ShardReads) -> (groups: Result<
        Vec<SafetensorsRoutedExpertWeightGroup>,
        ModelArtifactError,
    >)
        requires
            self.wf(),
            reads.wf(),
            covers(reads@, self@.shard_paths),
        ensures
            match groups {
                Ok(list) => group_spans(self@, reads@) == Ok::<Seq<ExpertGroup>, ArtifactFault>(
                    expert_groups(list@),
                ) && groups_in_order(expert_groups(list@)),
                Err(e) => group_spans(self@, reads@) == Err::<Seq<ExpertGroup>, ArtifactFault>(e@),
            },
    {
        match self.routed_expert_weight_spans(reads) {
            Ok(weights) => group_weights(&weights),
            Err(error) => Err(error),
        }
    }
}

} // verus!
