//! The tensors of a model by their layers, its quantized weights, and what its checkpoint holds.
use vstd::prelude::*;
use vstd::string::*;

use crate::artifact_error::{data_fault, invalid_safetensors_data, ArtifactFault, ModelArtifactError};
use crate::listing::{
    ascending_list_is_in_key_order, in_key_order, lemma_viewed_ascending, sorted, value_of_key,
};
use crate::order::{ascending, ascending_pairs_are_the_map, map_of, TextMap};
use crate::ordered_map::{ordered_pairs_are_the_map, LayerPlace, OrderedKey, OrderedMap};
use crate::safetensors::{span_entries, SafetensorsTensorSpan, TensorSpan};
use crate::safetensors_manifest::{covers, Manifest, SafetensorsManifest, ShardReads};
use crate::safetensors_spans::{all_spans, span_of, Reads};
use crate::tensor_data::{fingerprint_of, SafetensorsCheckpointFingerprintEntry};
use crate::tensor_names::{layer_name, layer_tensor_name, parse_layer_tensor_name};
use crate::text::{
    cat2, cat4, chars_of, decimal, decimal_usize, matches_at, same_text, stands_at, text_of,
};

verus! {

/// A tensor of a layer and where it lies.
#[derive(Clone, Debug, PartialEq, Eq)]
pub struct SafetensorsLayerTensorSpan {
    pub tensor_name: String,
    pub layer_id: usize,
    pub suffix: String,
    pub span: SafetensorsTensorSpan,
}

/// What a [`SafetensorsLayerTensorSpan`] says.
pub struct LayerTensor {
    pub tensor_name: Seq<char>,
    pub layer_id: nat,
    pub suffix: Seq<char>,
    pub span: TensorSpan,
}

impl View for SafetensorsLayerTensorSpan {
    type V = LayerTensor;

    open spec fn view(&self) -> LayerTensor {
        LayerTensor {
            tensor_name: self.tensor_name@,
            layer_id: self.layer_id as nat,
            suffix: self.suffix@,
            span: self.span@,
        }
    }
}

/// Several tensors of layers.
pub open spec fn layer_tensors(tensors: Seq<SafetensorsLayerTensorSpan>) -> Seq<LayerTensor> {
    tensors.map_values(|tensor: SafetensorsLayerTensorSpan| tensor@)
}

/// Those of the tensors that belong to layers.
pub open spec fn tensors_of_layers(entries: Seq<(Seq<char>, TensorSpan)>) -> Seq<LayerTensor>
    decreases entries.len(),
{
    if entries.len() == 0 {
        Seq::empty()
    } else {
        let (name, span) = entries.last();
        let before = tensors_of_layers(entries.drop_last());
        match layer_name(name) {
            Some((layer_id, suffix)) => before.push(
                LayerTensor { tensor_name: name, layer_id, suffix, span },
            ),
            None => before,
        }
    }
}

/// The tensors of the layers of a model.
pub open spec fn layer_spans(manifest: Manifest, reads: Reads) -> Result<
    Seq<LayerTensor>,
    ArtifactFault,
> {
    match all_spans(manifest, reads) {
        Ok(entries) => Ok(tensors_of_layers(entries)),
        Err(fault) => Err(fault),
    }
}

/// The tensor of a layer, by its name there.
pub open spec fn layer_span(
    manifest: Manifest,
    reads: Reads,
    layer_id: nat,
    suffix: Seq<char>,
) -> Result<Option<LayerTensor>, ArtifactFault> {
    let tensor_name = layer_tensor_name(layer_id, suffix);
    match span_of(manifest, reads, tensor_name) {
        Ok(Some(span)) => Ok(Some(LayerTensor { tensor_name, layer_id, suffix, span })),
        Ok(None) => Ok(None),
        Err(fault) => Err(fault),
    }
}

impl SafetensorsManifest {
    /// The tensors of the layers, in the order in which all tensors are listed.
    pub fn layer_tensor_spans(&self, reads: &ShardReads) -> (spans: Result<
        Vec<SafetensorsLayerTensorSpan>,
        ModelArtifactError,
    >)
        requires
            self.wf(),
            reads.wf(),
            covers(reads@, self@.shard_paths),
        ensures
            match spans {
                Ok(list) => layer_spans(self@, reads@) == Ok::<Seq<LayerTensor>, ArtifactFault>(
                    layer_tensors(list@),
                ),
                Err(e) => layer_spans(self@, reads@) == Err::<Seq<LayerTensor>, ArtifactFault>(e@),
            },
    {
        let entries = match self.tensor_span_entries(reads) {
            Ok(entries) => entries,
            Err(error) => {
                return Err(error);
            },
        };
        let ghost all = span_entries(entries@);
        let mut spans: Vec<SafetensorsLayerTensorSpan> = Vec::new();
        let mut i: usize = 0;
        proof {
            assert(layer_tensors(spans@) =~= tensors_of_layers(all.take(0)));
        }
        while i < entries.len()
            invariant
                i <= entries@.len(),
                all == span_entries(entries@),
                layer_tensors(spans@) == tensors_of_layers(all.take(i as int)),
            decreases entries@.len() - i,
        {
            let ghost before = layer_tensors(spans@);
            let entry = &entries[i];
            proof {
                assert(all[i as int] == (entry.0@, entry.1@));
                assert(all.take(i + 1).drop_last() =~= all.take(i as int));
                assert(all.take(i + 1).last() == all[i as int]);
            }
            if let Some((layer_id, suffix)) = parse_layer_tensor_name(entry.0.as_str()) {
                spans.push(
                    SafetensorsLayerTensorSpan {
                        tensor_name: entry.0.clone(),
                        layer_id,
                        suffix,
                        span: entry.1.copy(),
                    },
                );
                proof {
                    assert(layer_tensors(spans@) =~= before.push(spans@.last()@));
                }
            }
            i = i + 1;
        }
        proof {
            assert(all.take(i as int) =~= all);
        }
        Ok(spans)
    }

    /// The tensor of a layer, by its name there.
    pub fn layer_tensor_span(&self, reads: &ShardReads, layer_id: usize, suffix: &str) -> (span:
        Result<Option<SafetensorsLayerTensorSpan>, ModelArtifactError>)
        requires
            self.wf(),
            reads.wf(),
            covers(reads@, self@.shard_paths),
        ensures
            match span {
                Ok(Some(s)) => layer_span(self@, reads@, layer_id as nat, suffix@) == Ok::<
                    Option<LayerTensor>,
                    ArtifactFault,
                >(Some(s@)),
                Ok(None) => layer_span(self@, reads@, layer_id as nat, suffix@) == Ok::<
                    Option<LayerTensor>,
                    ArtifactFault,
                >(None),
                Err(e) => layer_span(self@, reads@, layer_id as nat, suffix@) == Err::<
                    Option<LayerTensor>,
                    ArtifactFault,
                >(e@),
            },
    {
        let tensor_name = cat4("model.layers.", decimal_usize(layer_id).as_str(), ".", suffix);
        match self.tensor_span(reads, tensor_name.as_str()) {
            Ok(Some(span)) => Ok(
                Some(
                    SafetensorsLayerTensorSpan {
                        tensor_name,
                        layer_id,
                        suffix: suffix.to_owned(),
                        span,
                    },
                ),
            ),
            Ok(None) => Ok(None),
            Err(error) => Err(error),
        }
    }

    /// What the checkpoint holds: every tensor with where it lies and its checksum, given the
    /// checksums of the bytes of the tensors in their order.
    pub fn checkpoint_fingerprint_entries(
        entries: Vec<(String, SafetensorsTensorSpan)>,
        checksums: &Vec<u64>,
    ) -> (fingerprint: Vec<SafetensorsCheckpointFingerprintEntry>)
        requires
            entries@.len() == checksums@.len(),
        ensures
            fingerprint@.len() == entries@.len(),
            forall|i: int|
                0 <= i < fingerprint@.len() ==> (#[trigger] fingerprint@[i])@ == fingerprint_of(
                    entries@[i].0@,
                    entries@[i].1@,
                    checksums@[i],
                ),
    {
        let mut fingerprint: Vec<SafetensorsCheckpointFingerprintEntry> = Vec::new();
        let mut i: usize = 0;
        while i < entries.len()
            invariant
                i <= entries@.len(),
                entries@.len() == checksums@.len(),
                fingerprint@.len() == i,
                forall|j: int|
                    0 <= j < i ==> (#[trigger] fingerprint@[j])@ == fingerprint_of(
                        entries@[j].0@,
                        entries@[j].1@,
                        checksums@[j],
                    ),
            decreases entries@.len() - i,
        {
            let entry = &entries[i];
            fingerprint.push(
                SafetensorsCheckpointFingerprintEntry::from_span(
                    entry.0.clone(),
                    entry.1.copy(),
                    checksums[i],
                ),
            );
            i = i + 1;
        }
        fingerprint
    }
}

/// How the scale of a quantized weight is given.
#[derive(Clone, Copy, Debug, PartialEq, Eq, Structural)]
pub enum SafetensorsQuantizedLinearScaleKind {
    WeightScaleInv,
    WeightScale,
}

/// A quantized weight and its scale.
#[derive(Clone, Debug, PartialEq, Eq)]
pub struct SafetensorsQuantizedLinearWeightSpan {
    pub tensor_name: String,
    pub scale_tensor_name: String,
    pub scale_kind: SafetensorsQuantizedLinearScaleKind,
    pub weight: SafetensorsTensorSpan,
    pub scale: SafetensorsTensorSpan,
}

/// What a [`SafetensorsQuantizedLinearWeightSpan`] says.
pub struct QuantizedWeight {
    pub tensor_name: Seq<char>,
    pub scale_tensor_name: Seq<char>,
    pub scale_kind: SafetensorsQuantizedLinearScaleKind,
    pub weight: TensorSpan,
    pub scale: TensorSpan,
}

impl View for SafetensorsQuantizedLinearWeightSpan {
    type V = QuantizedWeight;

    open spec fn view(&self) -> QuantizedWeight {
        QuantizedWeight {
            tensor_name: self.tensor_name@,
            scale_tensor_name: self.scale_tensor_name@,
            scale_kind: self.scale_kind,
            weight: self.weight@,
            scale: self.scale@,
        }
    }
}

/// Several quantized weights.
pub open spec fn quantized_weights(spans: Seq<SafetensorsQuantizedLinearWeightSpan>) -> Seq<
    QuantizedWeight,
> {
    spans.map_values(|span: SafetensorsQuantizedLinearWeightSpan| span@)
}

/// Whether a name ends in `.weight`.
pub open spec fn names_weight(name: Seq<char>) -> bool {
    name.len() >= ".weight"@.len() && stands_at(name, ".weight"@, name.len() - ".weight"@.len())
}

/// The name of a weight without `.weight` at its end.
pub open spec fn weight_base(name: Seq<char>) -> Seq<char> {
    name.take(name.len() - ".weight"@.len())
}

/// Whether a tensor is a quantized weight: by its name and its type.
pub open spec fn is_quantized(name: Seq<char>, span: TensorSpan) -> bool {
    names_weight(name) && (span.metadata.dtype == "F8_E4M3"@ || span.metadata.dtype == "F8_E5M2"@
        || span.metadata.dtype == "U8"@)
}

/// The quantized weight that a tensor is, where its scale is among the tensors.
pub open spec fn quantized_of(
    name: Seq<char>,
    weight: TensorSpan,
    entries: Seq<(Seq<char>, TensorSpan)>,
) -> Option<QuantizedWeight> {
    let inverse = weight_base(name) + ".weight_scale_inv"@;
    let direct = weight_base(name) + ".weight_scale"@;
    if !is_quantized(name, weight) {
        None
    } else {
        match value_of_key(entries, inverse) {
            Some(scale) => Some(
                QuantizedWeight {
                    tensor_name: name,
                    scale_tensor_name: inverse,
                    scale_kind: SafetensorsQuantizedLinearScaleKind::WeightScaleInv,
                    weight,
                    scale,
                },
            ),
            None => match value_of_key(entries, direct) {
                Some(scale) => Some(
                    QuantizedWeight {
                        tensor_name: name,
                        scale_tensor_name: direct,
                        scale_kind: SafetensorsQuantizedLinearScaleKind::WeightScale,
                        weight,
                        scale,
                    },
                ),
                None => None,
            },
        }
    }
}

/// The quantized weights among the first `n` tensors.
pub open spec fn quantized_among(entries: Seq<(Seq<char>, TensorSpan)>, n: nat) -> Seq<
    QuantizedWeight,
>
    decreases n,
{
    if n == 0 || n > entries.len() {
        Seq::empty()
    } else {
        let before = quantized_among(entries, (n - 1) as nat);
        match quantized_of(entries[n - 1].0, entries[n - 1].1, entries) {
            Some(weight) => before.push(weight),
            None => before,
        }
    }
}

/// The quantized weights among the tensors, with their scales, in the order of their names.
pub open spec fn quantized_in(entries: Seq<(Seq<char>, TensorSpan)>) -> Seq<QuantizedWeight> {
    let by_name = in_key_order(map_of(entries));
    quantized_among(by_name, by_name.len())
}

/// The quantized weights of a model, in the order of their names.
pub open spec fn quantized_spans(manifest: Manifest, reads: Reads) -> Result<
    Seq<QuantizedWeight>,
    ArtifactFault,
> {
    match all_spans(manifest, reads) {
        Ok(entries) => Ok(quantized_in(entries)),
        Err(fault) => Err(fault),
    }
}

fn is_quantized_linear_weight_tensor(tensor_name: &str, span: &SafetensorsTensorSpan) -> (quantized:
    bool)
    ensures
        quantized == is_quantized(tensor_name@, span@),
{
    let chars = chars_of(tensor_name);
    let suffix = chars_of(".weight");
    if chars.len() < suffix.len() || !matches_at(&chars, &suffix, chars.len() - suffix.len()) {
        return false;
    }
    let dtype = span.metadata.dtype.as_str();
    same_text(dtype, "F8_E4M3") || same_text(dtype, "F8_E5M2") || same_text(dtype, "U8")
}

fn quantized_linear_weight(
    tensor_name: &str,
    weight: &SafetensorsTensorSpan,
    entries: &TextMap<SafetensorsTensorSpan>,
) -> (span: Option<SafetensorsQuantizedLinearWeightSpan>)
    requires
        entries.wf(),
    ensures
        match span {
            Some(s) => quantized_of(tensor_name@, weight@, entries.listed()) == Some(s@),
            None => quantized_of(tensor_name@, weight@, entries.listed()) is None,
        },
{
    if !is_quantized_linear_weight_tensor(tensor_name, weight) {
        return None;
    }
    let chars = chars_of(tensor_name);
    let suffix = chars_of(".weight");
    let base = text_of(&chars, 0, chars.len() - suffix.len());
    proof {
        assert(base@ =~= weight_base(tensor_name@));
    }
    let inverse = cat2(base.as_str(), ".weight_scale_inv");
    if let Some(scale) = entries.lookup(inverse.as_str()) {
        return Some(
            SafetensorsQuantizedLinearWeightSpan {
                tensor_name: tensor_name.to_owned(),
                scale_tensor_name: inverse,
                scale_kind: SafetensorsQuantizedLinearScaleKind::WeightScaleInv,
                weight: weight.copy(),
                scale: scale.copy(),
            },
        );
    }
    let direct = cat2(base.as_str(), ".weight_scale");
    match entries.lookup(direct.as_str()) {
        Some(scale) => Some(
            SafetensorsQuantizedLinearWeightSpan {
                tensor_name: tensor_name.to_owned(),
                scale_tensor_name: direct,
                scale_kind: SafetensorsQuantizedLinearScaleKind::WeightScale,
                weight: weight.copy(),
                scale: scale.copy(),
            },
        ),
        None => None,
    }
}

fn spans_by_name(entries: &Vec<(String, SafetensorsTensorSpan)>) -> (map: TextMap<
    SafetensorsTensorSpan,
>)
    ensures
        map.wf(),
        map.listed() == in_key_order(map_of(span_entries(entries@))),
{
    let ghost all = span_entries(entries@);
    let mut map: TextMap<SafetensorsTensorSpan> = TextMap::new();
    let mut i: usize = 0;
    proof {
        assert(map.listed() =~= Seq::<(Seq<char>, TensorSpan)>::empty());
        assert(map_of(all.take(0)) =~= Map::empty());
    }
    while i < entries.len()
        invariant
            i <= entries@.len(),
            all == span_entries(entries@),
            map.wf(),
            ascending(map.listed()),
            map_of(map.listed()) == map_of(all.take(i as int)),
        decreases entries@.len() - i,
    {
        let entry = &entries[i];
        proof {
            assert(all[i as int] == (entry.0@, entry.1@));
            assert(all.take(i + 1).drop_last() =~= all.take(i as int));
            assert(all.take(i + 1).last() == all[i as int]);
        }
        map.set(entry.0.clone(), entry.1.copy());
        i = i + 1;
    }
    proof {
        assert(all.take(i as int) =~= all);
        ascending_list_is_in_key_order(map.listed());
    }
    map
}

impl SafetensorsManifest {
    /// The quantized weights with their scales, in the order of their names.
    pub fn quantized_linear_weight_spans(&self, reads: &ShardReads) -> (spans: Result<
        Vec<SafetensorsQuantizedLinearWeightSpan>,
        ModelArtifactError,
    >)
        requires
            self.wf(),
            reads.wf(),
            covers(reads@, self@.shard_paths),
        ensures
            match spans {
                Ok(list) => quantized_spans(self@, reads@) == Ok::<
                    Seq<QuantizedWeight>,
                    ArtifactFault,
                >(quantized_weights(list@)),
                Err(e) => quantized_spans(self@, reads@) == Err::<
                    Seq<QuantizedWeight>,
                    ArtifactFault,
                >(e@),
            },
    {
        let entries = match self.tensor_span_entries(reads) {
            Ok(entries) => entries,
            Err(error) => {
                return Err(error);
            },
        };
        let map = spans_by_name(&entries);
        let ghost all = map.listed();
        let mut spans: Vec<SafetensorsQuantizedLinearWeightSpan> = Vec::new();
        let total: usize = map.len();
        let mut i: usize = 0;
        proof {
            assert(quantized_weights(spans@) =~= Seq::empty());
        }
        while i < total
            invariant
                i <= total,
                map.wf(),
                total == map.pairs().len(),
                all == map.listed(),
                quantized_weights(spans@) == quantized_among(all, i as nat),
            decreases total - i,
        {
            let ghost before = quantized_weights(spans@);
            let name = map.key_at(i);
            let weight = map.value_at(i);
            proof {
                assert(all[i as int] == (name@, weight@));
            }
            if let Some(span) = quantized_linear_weight(name, weight, &map) {
                spans.push(span);
                proof {
                    assert(quantized_weights(spans@) =~= before.push(span@));
                }
            }
            i = i + 1;
        }
        Ok(spans)
    }
}

/// The quantized weights of a model by their names.
#[derive(Clone, Debug, PartialEq, Eq)]
pub struct SafetensorsQuantizedLinearWeightCatalog {
    weights: TextMap<SafetensorsQuantizedLinearWeightSpan>,
}

/// Quantized weights by their names.
pub open spec fn weights_by_name(weights: Seq<QuantizedWeight>) -> Map<Seq<char>, QuantizedWeight>
    decreases weights.len(),
{
    if weights.len() == 0 {
        Map::empty()
    } else {
        weights_by_name(weights.drop_last()).insert(weights.last().tensor_name, weights.last())
    }
}

impl View for SafetensorsQuantizedLinearWeightCatalog {
    type V = Map<Seq<char>, QuantizedWeight>;

    closed spec fn view(&self) -> Map<Seq<char>, QuantizedWeight> {
        map_of(self.weights.listed())
    }
}

impl SafetensorsQuantizedLinearWeightCatalog {
    /// The weights are kept in the order of their names.
    pub closed spec fn wf(self) -> bool {
        self.weights.wf()
    }

    /// The quantized weights of a model.
    pub fn from_safetensors_manifest(manifest: &SafetensorsManifest, reads: &ShardReads) -> (catalog:
        Result<SafetensorsQuantizedLinearWeightCatalog, ModelArtifactError>)
        requires
            manifest.wf(),
            reads.wf(),
            covers(reads@, manifest@.shard_paths),
        ensures
            match catalog {
                Ok(c) => c.wf() && quantized_spans(manifest@, reads@) is Ok && c@
                    == weights_by_name(quantized_spans(manifest@, reads@)->Ok_0),
                Err(e) => quantized_spans(manifest@, reads@) == Err::<
                    Seq<QuantizedWeight>,
                    ArtifactFault,
                >(e@),
            },
    {
        let spans = match manifest.quantized_linear_weight_spans(reads) {
            Ok(spans) => spans,
            Err(error) => {
                return Err(error);
            },
        };
        let ghost all = quantized_weights(spans@);
        let mut weights: TextMap<SafetensorsQuantizedLinearWeightSpan> = TextMap::new();
        let mut spans = spans;
        let total: usize = spans.len();
        let mut i: usize = 0;
        proof {
            assert(weights.listed() =~= Seq::<(Seq<char>, QuantizedWeight)>::empty());
            assert(all.take(0) =~= Seq::empty());
        }
        while i < total
            invariant
                i <= total,
                total == all.len(),
                spans@.len() == total,
                all == quantized_weights(spans@),
                weights.wf(),
                map_of(weights.listed()) == weights_by_name(all.take(i as int)),
            decreases total - i,
        {
            let span = &spans[i];
            proof {
                assert(all[i as int] == span@);
                assert(all.take(i + 1).drop_last() =~= all.take(i as int));
                assert(all.take(i + 1).last() == all[i as int]);
            }
            weights.set(
                span.tensor_name.clone(),
                SafetensorsQuantizedLinearWeightSpan {
                    tensor_name: span.tensor_name.clone(),
                    scale_tensor_name: span.scale_tensor_name.clone(),
                    scale_kind: span.scale_kind,
                    weight: span.weight.copy(),
                    scale: span.scale.copy(),
                },
            );
            i = i + 1;
        }
        proof {
            assert(all.take(i as int) =~= all);
        }
        Ok(SafetensorsQuantizedLinearWeightCatalog { weights })
    }

    /// The number of quantized weights.
    pub fn weight_count(&self) -> (count: usize)
        requires
            self.wf(),
        ensures
            count == self@.len(),
    {
        proof {
            lemma_viewed_ascending(self.weights.pairs());
            ascending_pairs_are_the_map(self.weights.listed());
        }
        self.weights.len()
    }

    /// The quantized weight of a name.
    pub fn span(&self, tensor_name: &str) -> (span: Option<&SafetensorsQuantizedLinearWeightSpan>)
        requires
            self.wf(),
        ensures
            match span {
                Some(s) => self@.dom().contains(tensor_name@) && self@[tensor_name@] == s@,
                None => !self@.dom().contains(tensor_name@),
            },
    {
        self.weights.lookup(tensor_name)
    }
}

/// The tensors of layers by their places; a place that comes twice is an error.
pub open spec fn tensors_by_place(tensors: Seq<LayerTensor>) -> Result<
    Map<(usize, Seq<char>), LayerTensor>,
    ArtifactFault,
>
    decreases tensors.len(),
{
    if tensors.len() == 0 {
        Ok(Map::empty())
    } else {
        let tensor = tensors.last();
        let place = (tensor.layer_id as usize, tensor.suffix);
        match tensors_by_place(tensors.drop_last()) {
            Ok(before) => if before.dom().contains(place) {
                Err(
                    data_fault(
                        tensor.span.path,
                        "duplicate layer tensor suffix for layer "@ + decimal(tensor.layer_id)
                            + ": "@ + tensor.suffix,
                    ),
                )
            } else {
                Ok(before.insert(place, tensor))
            },
            Err(fault) => Err(fault),
        }
    }
}

/// The tensors of the layers of a model by their places.
pub open spec fn layer_catalog(manifest: Manifest, reads: Reads) -> Result<
    Map<(usize, Seq<char>), LayerTensor>,
    ArtifactFault,
> {
    match layer_spans(manifest, reads) {
        Ok(tensors) => tensors_by_place(tensors),
        Err(fault) => Err(fault),
    }
}

proof fn lemma_duplicate_stays(tensors: Seq<LayerTensor>, n: int)
    requires
        0 <= n <= tensors.len(),
        tensors_by_place(tensors.take(n)) is Err,
    ensures
        tensors_by_place(tensors) == tensors_by_place(tensors.take(n)),
    decreases tensors.len() - n,
{
    if n < tensors.len() {
        assert(tensors.take(n + 1).drop_last() =~= tensors.take(n));
        lemma_duplicate_stays(tensors, n + 1);
    } else {
        assert(tensors.take(n) =~= tensors);
    }
}

/// The tensors of the layers of a model by their layers and their names there.
#[derive(Clone, Debug, PartialEq, Eq)]
pub struct SafetensorsLayerTensorCatalog {
    tensors: OrderedMap<LayerPlace, SafetensorsLayerTensorSpan>,
}

impl View for SafetensorsLayerTensorCatalog {
    type V = Map<(usize, Seq<char>), LayerTensor>;

    closed spec fn view(&self) -> Map<(usize, Seq<char>), LayerTensor> {
        map_of(self.tensors.listed())
    }
}

/// The layers of the places, in order, each once; the places are in order.
pub open spec fn layers_of(places: Seq<((usize, Seq<char>), LayerTensor)>) -> Seq<usize>
    decreases places.len(),
{
    if places.len() == 0 {
        Seq::empty()
    } else {
        let before = layers_of(places.drop_last());
        if before.len() > 0 && before.last() == places.last().0.0 {
            before
        } else {
            before.push(places.last().0.0)
        }
    }
}

/// The names of the tensors of a layer among the places, in their order.
pub open spec fn suffixes_of(
    places: Seq<((usize, Seq<char>), LayerTensor)>,
    layer_id: usize,
) -> Seq<Seq<char>>
    decreases places.len(),
{
    if places.len() == 0 {
        Seq::empty()
    } else {
        let before = suffixes_of(places.drop_last(), layer_id);
        if places.last().0.0 == layer_id {
            before.push(places.last().0.1)
        } else {
            before
        }
    }
}

impl SafetensorsLayerTensorCatalog {
    /// The tensors are kept in the order of their places.
    pub closed spec fn wf(self) -> bool {
        self.tensors.wf()
    }

    /// The tensors of the layers of a model.
    pub fn from_safetensors_manifest(manifest: &SafetensorsManifest, reads: &ShardReads) -> (catalog:
        Result<SafetensorsLayerTensorCatalog, ModelArtifactError>)
        requires
            manifest.wf(),
            reads.wf(),
            covers(reads@, manifest@.shard_paths),
        ensures
            match catalog {
                Ok(c) => c.wf() && layer_catalog(manifest@, reads@) == Ok::<
                    Map<(usize, Seq<char>), LayerTensor>,
                    ArtifactFault,
                >(c@),
                Err(e) => layer_catalog(manifest@, reads@) == Err::<
                    Map<(usize, Seq<char>), LayerTensor>,
                    ArtifactFault,
                >(e@),
            },
    {
        let spans = match manifest.layer_tensor_spans(reads) {
            Ok(spans) => spans,
            Err(error) => {
                return Err(error);
            },
        };
        let ghost all = layer_tensors(spans@);
        let mut tensors: OrderedMap<LayerPlace, SafetensorsLayerTensorSpan> = OrderedMap::new();
        let mut i: usize = 0;
        proof {
            assert(tensors.listed() =~= Seq::<((usize, Seq<char>), LayerTensor)>::empty());
            assert(all.take(0) =~= Seq::empty());
        }
        while i < spans.len()
            invariant
                i <= spans@.len(),
                all == layer_tensors(spans@),
                layer_spans(manifest@, reads@) == Ok::<Seq<LayerTensor>, ArtifactFault>(all),
                tensors.wf(),
                tensors_by_place(all.take(i as int)) == Ok::<
                    Map<(usize, Seq<char>), LayerTensor>,
                    ArtifactFault,
                >(map_of(tensors.listed())),
            decreases spans@.len() - i,
        {
            let entry = &spans[i];
            proof {
                assert(all[i as int] == entry@);
                assert(all.take(i + 1).drop_last() =~= all.take(i as int));
                assert(all.take(i + 1).last() == all[i as int]);
            }
            let place = LayerPlace { layer_id: entry.layer_id, suffix: entry.suffix.clone() };
            if tensors.lookup(&place).is_some() {
                proof {
                    lemma_duplicate_stays(all, i + 1);
                }
                return Err(
                    invalid_safetensors_data(
                        entry.span.path.as_str(),
                        cat4(
                            "duplicate layer tensor suffix for layer ",
                            decimal_usize(entry.layer_id).as_str(),
                            ": ",
                            entry.suffix.as_str(),
                        ),
                    ),
                );
            }
            tensors.set(
                place,
                SafetensorsLayerTensorSpan {
                    tensor_name: entry.tensor_name.clone(),
                    layer_id: entry.layer_id,
                    suffix: entry.suffix.clone(),
                    span: entry.span.copy(),
                },
            );
            i = i + 1;
        }
        proof {
            assert(all.take(i as int) =~= all);
        }
        Ok(SafetensorsLayerTensorCatalog { tensors })
    }

    /// The number of tensors.
    pub fn tensor_count(&self) -> (count: usize)
        requires
            self.wf(),
        ensures
            count == self@.len(),
    {
        proof {
            self.tensors.lemma_listed();
            ordered_pairs_are_the_map::<LayerPlace, LayerTensor>(self.tensors.listed());
        }
        self.tensors.len()
    }

    /// The layers, in order.
    pub fn layer_ids(&self) -> (layers: Vec<usize>)
        requires
            self.wf(),
        ensures
            layers@ == layers_of(sorted::<LayerPlace, LayerTensor>(self@)),
    {
        let mut layers: Vec<usize> = Vec::new();
        let total: usize = self.tensors.len();
        let ghost all = self.tensors.listed();
        let mut i: usize = 0;
        proof {
            self.tensors.lemma_listed();
            assert(all.take(0) =~= Seq::empty());
        }
        while i < total
            invariant
                i <= total,
                total == self.tensors.pairs().len(),
                all == self.tensors.listed(),
                layers@ == layers_of(all.take(i as int)),
            decreases total - i,
        {
            let place = self.tensors.key_at(i);
            proof {
                assert(all[i as int].0 == place.said());
                assert(all.take(i + 1).drop_last() =~= all.take(i as int));
                assert(all.take(i + 1).last() == all[i as int]);
            }
            if layers.len() == 0 || layers[layers.len() - 1] != place.layer_id {
                layers.push(place.layer_id);
            }
            i = i + 1;
        }
        proof {
            assert(all.take(i as int) =~= all);
        }
        layers
    }

    /// The names of the tensors of a layer, in order.
    pub fn suffixes(&self, layer_id: usize) -> (suffixes: Vec<String>)
        requires
            self.wf(),
        ensures
            crate::text::texts(suffixes@) == suffixes_of(
                sorted::<LayerPlace, LayerTensor>(self@),
                layer_id,
            ),
    {
        let mut suffixes: Vec<String> = Vec::new();
        let total: usize = self.tensors.len();
        let ghost all = self.tensors.listed();
        let mut i: usize = 0;
        proof {
            self.tensors.lemma_listed();
            assert(all.take(0) =~= Seq::empty());
            assert(crate::text::texts(suffixes@) =~= Seq::empty());
        }
        while i < total
            invariant
                i <= total,
                total == self.tensors.pairs().len(),
                all == self.tensors.listed(),
                crate::text::texts(suffixes@) == suffixes_of(all.take(i as int), layer_id),
            decreases total - i,
        {
            let ghost before = crate::text::texts(suffixes@);
            let place = self.tensors.key_at(i);
            proof {
                assert(all[i as int].0 == place.said());
                assert(all.take(i + 1).drop_last() =~= all.take(i as int));
                assert(all.take(i + 1).last() == all[i as int]);
            }
            if place.layer_id == layer_id {
                suffixes.push(place.suffix.clone());
                proof {
                    assert(crate::text::texts(suffixes@) =~= before.push(place.suffix@));
                }
            }
            i = i + 1;
        }
        proof {
            assert(all.take(i as int) =~= all);
        }
        suffixes
    }

    /// The tensor of a layer, by its name there.
    pub fn span(&self, layer_id: usize, suffix: &str) -> (span: Option<&SafetensorsLayerTensorSpan>)
        requires
            self.wf(),
        ensures
            match span {
                Some(s) => self@.dom().contains((layer_id, suffix@)) && self@[(layer_id, suffix@)]
                    == s@,
                None => !self@.dom().contains((layer_id, suffix@)),
            },
    {
        let place = LayerPlace { layer_id, suffix: suffix.to_owned() };
        self.tensors.lookup(&place)
    }
}

impl SafetensorsManifest {
    /// The tensors of the layers by their places.
    pub fn layer_tensor_catalog(&self, reads: &ShardReads) -> (catalog: Result<
        SafetensorsLayerTensorCatalog,
        ModelArtifactError,
    >)
        requires
            self.wf(),
            reads.wf(),
            covers(reads@, self@.shard_paths),
        ensures
            match catalog {
                Ok(c) => c.wf() && layer_catalog(self@, reads@) == Ok::<
                    Map<(usize, Seq<char>), LayerTensor>,
                    ArtifactFault,
                >(c@),
                Err(e) => layer_catalog(self@, reads@) == Err::<
                    Map<(usize, Seq<char>), LayerTensor>,
                    ArtifactFault,
                >(e@),
            },
    {
        SafetensorsLayerTensorCatalog::from_safetensors_manifest(self, reads)
    }
}

} // verus!
