//! A model in a local directory.
use vstd::prelude::*;
use vstd::string::*;

use crate::artifact_error::{ArtifactFault, ModelArtifactError};
use crate::checkpoint::{
    check_experts, check_topology, experts_met, topology_met, CheckpointTopology,
    RoutedExpertCheckpointCoverage,
};
use crate::layer_tensors::{
    layer_catalog, quantized_spans, weights_by_name, LayerTensor, QuantizedWeight,
    SafetensorsLayerTensorCatalog, SafetensorsQuantizedLinearWeightCatalog,
};
use crate::listing::sorted;
use crate::model_config::{HfModelConfig, ModelConfig};
use crate::order::map_of;
use crate::ordered_map::{ordered_pairs_are_the_map, ExpertPlace, OrderedKey, OrderedMap};
use crate::routed_experts::{
    expert_groups, group_place, group_spans, ExpertGroup, SafetensorsRoutedExpertWeightGroup,
};
use crate::safetensors_manifest::{covers, Manifest, SafetensorsManifest, ShardReads};
use crate::safetensors_spans::Reads;

verus! {

/// Experts by their places.
pub open spec fn groups_by_place(groups: Seq<ExpertGroup>) -> Map<ExpertPlace, ExpertGroup>
    decreases groups.len(),
{
    if groups.len() == 0 {
        Map::empty()
    } else {
        groups_by_place(groups.drop_last()).insert(group_place(groups.last()), groups.last())
    }
}

/// The routed experts of a model by their layers and numbers.
#[derive(Clone, Debug, PartialEq, Eq)]
pub struct SafetensorsRoutedExpertWeightCatalog {
    groups: OrderedMap<ExpertPlace, SafetensorsRoutedExpertWeightGroup>,
}

impl View for SafetensorsRoutedExpertWeightCatalog {
    type V = Map<ExpertPlace, ExpertGroup>;

    closed spec fn view(&self) -> Map<ExpertPlace, ExpertGroup> {
        map_of(self.groups.listed())
    }
}

/// The layers of experts in order, each once.
pub open spec fn expert_layers(experts: Seq<(ExpertPlace, ExpertGroup)>) -> Seq<usize>
    decreases experts.len(),
{
    if experts.len() == 0 {
        Seq::empty()
    } else {
        let before = expert_layers(experts.drop_last());
        if before.len() > 0 && before.last() == experts.last().0.layer_id {
            before
        } else {
            before.push(experts.last().0.layer_id)
        }
    }
}

/// The experts of a layer, in order.
pub open spec fn experts_of_layer(
    experts: Seq<(ExpertPlace, ExpertGroup)>,
    layer_id: usize,
) -> Seq<ExpertGroup>
    decreases experts.len(),
{
    if experts.len() == 0 {
        Seq::empty()
    } else {
        let before = experts_of_layer(experts.drop_last(), layer_id);
        if experts.last().0.layer_id == layer_id {
            before.push(experts.last().1)
        } else {
            before
        }
    }
}

/// The routed experts of one layer.
#[derive(Clone, Debug, PartialEq, Eq)]
pub struct SafetensorsRoutedExpertLayerWeights<'a> {
    layer_id: usize,
    groups: Vec<&'a SafetensorsRoutedExpertWeightGroup>,
}

impl<'a> SafetensorsRoutedExpertLayerWeights<'a> {
    /// The experts, by what they say.
    pub closed spec fn experts(self) -> Seq<ExpertGroup> {
        self.groups@.map_values(|group: &'a SafetensorsRoutedExpertWeightGroup| group@)
    }

    /// The number of the layer.
    pub closed spec fn layer(self) -> usize {
        self.layer_id
    }

    /// The number of the layer.
    pub fn layer_id(&self) -> (layer_id: usize)
        ensures
            layer_id == self.layer(),
    {
        self.layer_id
    }

    /// The number of experts.
    pub fn expert_count(&self) -> (count: usize)
        ensures
            count == self.experts().len(),
    {
        self.groups.len()
    }

    /// The numbers of the experts, in order.
    pub fn expert_ids(&self) -> (ids: Vec<usize>)
        ensures
            ids@.len() == self.experts().len(),
            forall|i: int|
                0 <= i < ids@.len() ==> #[trigger] ids@[i] as nat == self.experts()[i].expert_id,
    {
        let mut ids: Vec<usize> = Vec::new();
        let mut i: usize = 0;
        while i < self.groups.len()
            invariant
                i <= self.groups@.len(),
                ids@.len() == i,
                forall|j: int|
                    0 <= j < i ==> #[trigger] ids@[j] as nat == self.experts()[j].expert_id,
            decreases self.groups@.len() - i,
        {
            proof {
                assert(self.experts()[i as int] == self.groups@[i as int]@);
            }
            ids.push(self.groups[i].expert_id);
            i = i + 1;
        }
        ids
    }

    /// The first expert of a number.
    pub fn group(&self, expert_id: usize) -> (group: Option<&'a SafetensorsRoutedExpertWeightGroup>)
        ensures
            match group {
                Some(g) => exists|i: int|
                    0 <= i < self.experts().len() && #[trigger] self.experts()[i] == g@
                        && g@.expert_id == expert_id && forall|j: int|
                        0 <= j < i ==> (#[trigger] self.experts()[j]).expert_id != expert_id,
                None => forall|i: int|
                    0 <= i < self.experts().len() ==> (#[trigger] self.experts()[i]).expert_id
                        != expert_id,
            },
    {
        let mut i: usize = 0;
        while i < self.groups.len()
            invariant
                i <= self.groups@.len(),
                forall|j: int|
                    0 <= j < i ==> (#[trigger] self.experts()[j]).expert_id != expert_id,
            decreases self.groups@.len() - i,
        {
            proof {
                assert(self.experts()[i as int] == self.groups@[i as int]@);
            }
            if self.groups[i].expert_id == expert_id {
                return Some(self.groups[i]);
            }
            i = i + 1;
        }
        None
    }

    /// The experts, in order.
    pub fn groups(&self) -> (groups: &Vec<&'a SafetensorsRoutedExpertWeightGroup>)
        ensures
            groups@.map_values(|group: &'a SafetensorsRoutedExpertWeightGroup| group@)
                == self.experts(),
    {
        &self.groups
    }
}

impl SafetensorsRoutedExpertWeightCatalog {
    /// The experts are kept in order.
    pub closed spec fn wf(self) -> bool {
        self.groups.wf()
    }

    /// The catalog of experts.
    pub fn from_groups(groups: Vec<SafetensorsRoutedExpertWeightGroup>) -> (catalog:
        SafetensorsRoutedExpertWeightCatalog)
        ensures
            catalog.wf(),
            catalog@ == groups_by_place(expert_groups(groups@)),
    {
        let ghost all = expert_groups(groups@);
        let ghost held = groups@;
        let total: usize = groups.len();
        let mut rest = groups;
        let mut back: Vec<SafetensorsRoutedExpertWeightGroup> = Vec::new();
        let mut n: usize = total;
        while n > 0
            invariant
                n <= total,
                total == held.len(),
                rest@ == held.take(n as int),
                back@.len() == total - n,
                forall|k: int| 0 <= k < total - n ==> (#[trigger] back@[k]) == held[total - 1 - k],
            decreases n,
        {
            if let Some(group) = rest.pop() {
                back.push(group);
            }
            n = n - 1;
            proof {
                assert(rest@ =~= held.take(n as int));
            }
        }
        let mut map: OrderedMap<ExpertPlace, SafetensorsRoutedExpertWeightGroup> =
            OrderedMap::new();
        let mut i: usize = 0;
        proof {
            assert(map.listed() =~= Seq::<(ExpertPlace, ExpertGroup)>::empty());
            assert(all.take(0) =~= Seq::empty());
        }
        while i < total
            invariant
                i <= total,
                total == held.len(),
                all == expert_groups(held),
                map.wf(),
                back@.len() == total - i,
                forall|k: int| 0 <= k < total - i ==> (#[trigger] back@[k]) == held[total - 1 - k],
                map_of(map.listed()) == groups_by_place(all.take(i as int)),
            decreases total - i,
        {
            proof {
                assert(all[i as int] == held[i as int]@);
                assert(all.take(i + 1).drop_last() =~= all.take(i as int));
                assert(all.take(i + 1).last() == all[i as int]);
                assert(back@[total - i - 1] == held[i as int]);
            }
            if let Some(group) = back.pop() {
                let place = ExpertPlace { layer_id: group.layer_id, expert_id: group.expert_id };
                map.set(place, group);
            }
            i = i + 1;
        }
        proof {
            assert(all.take(i as int) =~= all);
        }
        SafetensorsRoutedExpertWeightCatalog { groups: map }
    }

    /// The routed experts of a model.
    pub fn from_local_model_artifacts(artifacts: &LocalModelArtifacts) -> (catalog: Result<
        SafetensorsRoutedExpertWeightCatalog,
        ModelArtifactError,
    >)
        requires
            artifacts.wf(),
        ensures
            match catalog {
                Ok(c) => c.wf() && group_spans(artifacts@.safetensors, artifacts@.shards) is Ok
                    && c@ == groups_by_place(
                    group_spans(artifacts@.safetensors, artifacts@.shards)->Ok_0,
                ),
                Err(e) => group_spans(artifacts@.safetensors, artifacts@.shards) == Err::<
                    Seq<ExpertGroup>,
                    ArtifactFault,
                >(e@),
            },
    {
        match artifacts.safetensors.routed_expert_weight_groups(&artifacts.shards) {
            Ok(groups) => Ok(SafetensorsRoutedExpertWeightCatalog::from_groups(groups)),
            Err(error) => Err(error),
        }
    }

    /// The number of experts.
    pub fn group_count(&self) -> (count: usize)
        requires
            self.wf(),
        ensures
            count == self@.len(),
    {
        proof {
            self.groups.lemma_listed();
            ordered_pairs_are_the_map::<ExpertPlace, ExpertGroup>(self.groups.listed());
        }
        self.groups.len()
    }

    /// The layers and numbers of the experts, in order.
    pub fn coordinates(&self) -> (coordinates: Vec<(usize, usize)>)
        requires
            self.wf(),
        ensures
            coordinates@.len() == sorted::<ExpertPlace, ExpertGroup>(self@).len(),
            forall|i: int|
                0 <= i < coordinates@.len() ==> sorted::<ExpertPlace, ExpertGroup>(self@)[i].0
                    == (ExpertPlace {
                    layer_id: (#[trigger] coordinates@[i]).0,
                    expert_id: coordinates@[i].1,
                }),
    {
        let mut coordinates: Vec<(usize, usize)> = Vec::new();
        let total: usize = self.groups.len();
        let ghost all = self.groups.listed();
        let mut i: usize = 0;
        proof {
            self.groups.lemma_listed();
        }
        while i < total
            invariant
                i <= total,
                total == self.groups.pairs().len(),
                all == self.groups.listed(),
                coordinates@.len() == i,
                forall|j: int|
                    0 <= j < i ==> all[j].0 == (ExpertPlace {
                        layer_id: (#[trigger] coordinates@[j]).0,
                        expert_id: coordinates@[j].1,
                    }),
            decreases total - i,
        {
            let place = self.groups.key_at(i);
            proof {
                assert(all[i as int].0 == *place);
            }
            coordinates.push((place.layer_id, place.expert_id));
            i = i + 1;
        }
        coordinates
    }

    /// The layers that have routed experts, in order.
    pub fn layer_ids(&self) -> (layers: Vec<usize>)
        requires
            self.wf(),
        ensures
            layers@ == expert_layers(sorted::<ExpertPlace, ExpertGroup>(self@)),
    {
        let mut layers: Vec<usize> = Vec::new();
        let total: usize = self.groups.len();
        let ghost all = self.groups.listed();
        let mut i: usize = 0;
        proof {
            self.groups.lemma_listed();
            assert(all.take(0) =~= Seq::empty());
        }
        while i < total
            invariant
                i <= total,
                total == self.groups.pairs().len(),
                all == self.groups.listed(),
                layers@ == expert_layers(all.take(i as int)),
            decreases total - i,
        {
            let place = self.groups.key_at(i);
            proof {
                assert(all[i as int].0 == *place);
                assert(all.take(i + 1).drop_last() =~= all.take(i as int));
                assert(all.take(i + 1).last() == all[i as int]);
            }
            if layers.len() == 0 || layers[layers.len() - 1] != place.layer_id {
                layers.push(place.layer_id);
            }
            i = i + 1;
        }
        proof {
            assert(all.take(i as int) =~= all);
        }
        layers
    }

    /// The experts of a layer, if it has any.
    pub fn layer(&self, layer_id: usize) -> (layer: Option<SafetensorsRoutedExpertLayerWeights<'_>>)
        requires
            self.wf(),
        ensures
            match layer {
                Some(weights) => weights.layer() == layer_id && weights.experts().len() > 0
                    && weights.experts() == experts_of_layer(
                    sorted::<ExpertPlace, ExpertGroup>(self@),
                    layer_id,
                ),
                None => experts_of_layer(
                    sorted::<ExpertPlace, ExpertGroup>(self@),
                    layer_id,
                ).len() == 0,
            },
    {
        let mut weights = SafetensorsRoutedExpertLayerWeights { layer_id, groups: Vec::new() };
        let total: usize = self.groups.len();
        let ghost all = self.groups.listed();
        let mut i: usize = 0;
        proof {
            self.groups.lemma_listed();
            assert(all.take(0) =~= Seq::empty());
            assert(weights.experts() =~= Seq::empty());
        }
        while i < total
            invariant
                i <= total,
                total == self.groups.pairs().len(),
                all == self.groups.listed(),
                weights.layer_id == layer_id,
                weights.experts() == experts_of_layer(all.take(i as int), layer_id),
            decreases total - i,
        {
            let place = self.groups.key_at(i);
            let group = self.groups.value_at(i);
            let ghost before = weights.experts();
            proof {
                assert(all[i as int] == (*place, group@));
                assert(all.take(i + 1).drop_last() =~= all.take(i as int));
                assert(all.take(i + 1).last() == all[i as int]);
            }
            if place.layer_id == layer_id {
                weights.groups.push(group);
                proof {
                    assert(weights.experts() =~= before.push(group@));
                }
            }
            i = i + 1;
        }
        proof {
            assert(all.take(i as int) =~= all);
        }
        if weights.groups.len() == 0 {
            None
        } else {
            Some(weights)
        }
    }

    /// An expert of a layer.
    pub fn group(&self, layer_id: usize, expert_id: usize) -> (group: Option<
        &SafetensorsRoutedExpertWeightGroup,
    >)
        requires
            self.wf(),
        ensures
            ({
                let place = ExpertPlace { layer_id, expert_id };
                match group {
                    Some(g) => self@.dom().contains(place) && self@[place] == g@,
                    None => !self@.dom().contains(place),
                }
            }),
    {
        let place = ExpertPlace { layer_id, expert_id };
        self.groups.lookup(&place)
    }
}

/// A model in a local directory, and what came of reading its shards.
#[derive(Debug, PartialEq, Eq)]
pub struct LocalModelArtifacts {
    model_path: String,
    config: HfModelConfig,
    safetensors: SafetensorsManifest,
    shards: ShardReads,
}

/// What a [`LocalModelArtifacts`] says.
pub struct LocalModel {
    pub model_path: Seq<char>,
    pub config: ModelConfig,
    pub safetensors: Manifest,
    pub shards: Reads,
}

impl View for LocalModelArtifacts {
    type V = LocalModel;

    closed spec fn view(&self) -> LocalModel {
        LocalModel {
            model_path: self.model_path@,
            config: self.config@,
            safetensors: self.safetensors@,
            shards: self.shards@,
        }
    }
}

/// Checks that the path of a model is a directory, before anything is read from it.
pub fn check_model_dir(model_path: &str, is_dir: bool) -> (checked: Result<(), ModelArtifactError>)
    ensures
        match checked {
            Ok(_) => is_dir,
            Err(e) => !is_dir && e@ == (ArtifactFault::ModelPathNotLocalDirectory {
                path: model_path@,
            }),
        },
{
    if is_dir {
        Ok(())
    } else {
        Err(ModelArtifactError::ModelPathNotLocalDirectory { path: model_path.to_owned() })
    }
}

impl LocalModelArtifacts {
    /// It is known of every shard what came of reading it.
    pub closed spec fn wf(self) -> bool {
        &&& self.safetensors.wf()
        &&& self.shards.wf()
        &&& covers(self.shards@, self.safetensors@.shard_paths)
    }

    /// The model at a path: it must be a directory, and its configuration and its manifest must
    /// have been read.
    pub fn from_resolved_model_path(
        model_path: String,
        is_dir: bool,
        config: Result<HfModelConfig, ModelArtifactError>,
        safetensors: Result<SafetensorsManifest, ModelArtifactError>,
        shards: ShardReads,
    ) -> (model: Result<LocalModelArtifacts, ModelArtifactError>)
        requires
            shards.wf(),
            safetensors is Ok ==> safetensors->Ok_0.wf() && covers(
                shards@,
                safetensors->Ok_0@.shard_paths,
            ),
        ensures
            match model {
                Ok(m) => m.wf() && is_dir && config is Ok && safetensors is Ok && m@ == (
                LocalModel {
                    model_path: model_path@,
                    config: config->Ok_0@,
                    safetensors: safetensors->Ok_0@,
                    shards: shards@,
                }),
                Err(e) => if !is_dir {
                    e@ == (ArtifactFault::ModelPathNotLocalDirectory { path: model_path@ })
                } else if config is Err {
                    e@ == config->Err_0@
                } else {
                    safetensors is Err && e@ == safetensors->Err_0@
                },
            },
    {
        if let Err(error) = check_model_dir(model_path.as_str(), is_dir) {
            return Err(error);
        }
        match config {
            Ok(config) => match safetensors {
                Ok(safetensors) => Ok(
                    LocalModelArtifacts { model_path, config, safetensors, shards },
                ),
                Err(error) => Err(error),
            },
            Err(error) => Err(error),
        }
    }

    /// The directory.
    pub fn model_path(&self) -> (path: &str)
        ensures
            path@ == self@.model_path,
    {
        self.model_path.as_str()
    }

    /// The configuration.
    pub fn config(&self) -> (config: &HfModelConfig)
        ensures
            config@ == self@.config,
    {
        &self.config
    }

    /// The manifest.
    pub fn safetensors(&self) -> (manifest: &SafetensorsManifest)
        requires
            self.wf(),
        ensures
            manifest.wf(),
            manifest@ == self@.safetensors,
    {
        &self.safetensors
    }

    /// What came of reading the shards.
    pub fn shards(&self) -> (shards: &ShardReads)
        requires
            self.wf(),
        ensures
            shards.wf(),
            shards@ == self@.shards,
            covers(shards@, self@.safetensors.shard_paths),
    {
        &self.shards
    }

    /// Whether the checkpoint holds the experts that are asked for.
    pub fn validate_routed_expert_checkpoint_coverage(&self, topology: &CheckpointTopology) -> (
    coverage: Result<RoutedExpertCheckpointCoverage, ModelArtifactError>)
        requires
            self.wf(),
            topology.wf(),
        ensures
            match coverage {
                Ok(c) => experts_met(
                    self@.model_path,
                    topology@,
                    self@.safetensors,
                    self@.shards,
                ) == Ok::<RoutedExpertCheckpointCoverage, ArtifactFault>(c),
                Err(e) => experts_met(
                    self@.model_path,
                    topology@,
                    self@.safetensors,
                    self@.shards,
                ) == Err::<RoutedExpertCheckpointCoverage, ArtifactFault>(e@),
            },
    {
        check_experts(self.model_path.as_str(), &self.safetensors, &self.shards, topology)
    }

    /// Whether the checkpoint holds what is asked for.
    pub fn validate_checkpoint_topology(&self, topology: &CheckpointTopology) -> (met: Result<
        (),
        ModelArtifactError,
    >)
        requires
            self.wf(),
            topology.wf(),
        ensures
            match met {
                Ok(_) => topology_met(
                    self@.model_path,
                    topology@,
                    self@.safetensors,
                    self@.shards,
                ) == Ok::<(), ArtifactFault>(()),
                Err(e) => topology_met(
                    self@.model_path,
                    topology@,
                    self@.safetensors,
                    self@.shards,
                ) == Err::<(), ArtifactFault>(e@),
            },
    {
        check_topology(self.model_path.as_str(), &self.safetensors, &self.shards, topology)
    }

    /// The routed experts by their layers and numbers.
    pub fn routed_expert_weight_catalog(&self) -> (catalog: Result<
        SafetensorsRoutedExpertWeightCatalog,
        ModelArtifactError,
    >)
        requires
            self.wf(),
        ensures
            match catalog {
                Ok(c) => c.wf() && group_spans(self@.safetensors, self@.shards) is Ok && c@
                    == groups_by_place(group_spans(self@.safetensors, self@.shards)->Ok_0),
                Err(e) => group_spans(self@.safetensors, self@.shards) == Err::<
                    Seq<ExpertGroup>,
                    ArtifactFault,
                >(e@),
            },
    {
        SafetensorsRoutedExpertWeightCatalog::from_local_model_artifacts(self)
    }

    /// All that the checkpoint holds.
    pub fn checkpoint_catalog(&self) -> (catalog: Result<
        LocalModelCheckpointCatalog,
        ModelArtifactError,
    >)
        requires
            self.wf(),
        ensures
            match catalog {
                Ok(c) => c.wf() && catalog_of(self@) == Ok::<CheckpointCatalog, ArtifactFault>(c@),
                Err(e) => catalog_of(self@) == Err::<CheckpointCatalog, ArtifactFault>(e@),
            },
    {
        LocalModelCheckpointCatalog::from_local_model_artifacts(self)
    }
}

/// All that a checkpoint holds.
#[derive(Clone, Debug, PartialEq, Eq)]
pub struct LocalModelCheckpointCatalog {
    model_path: String,
    safetensors: SafetensorsManifest,
    layer_tensors: SafetensorsLayerTensorCatalog,
    quantized_linears: SafetensorsQuantizedLinearWeightCatalog,
    routed_experts: SafetensorsRoutedExpertWeightCatalog,
}

/// What a [`LocalModelCheckpointCatalog`] says.
pub struct CheckpointCatalog {
    pub model_path: Seq<char>,
    pub safetensors: Manifest,
    pub layer_tensors: Map<(usize, Seq<char>), LayerTensor>,
    pub quantized_linears: Map<Seq<char>, QuantizedWeight>,
    pub routed_experts: Map<ExpertPlace, ExpertGroup>,
}

impl View for LocalModelCheckpointCatalog {
    type V = CheckpointCatalog;

    closed spec fn view(&self) -> CheckpointCatalog {
        CheckpointCatalog {
            model_path: self.model_path@,
            safetensors: self.safetensors@,
            layer_tensors: self.layer_tensors@,
            quantized_linears: self.quantized_linears@,
            routed_experts: self.routed_experts@,
        }
    }
}

/// All that the checkpoint of a model holds.
pub open spec fn catalog_of(model: LocalModel) -> Result<CheckpointCatalog, ArtifactFault> {
    match layer_catalog(model.safetensors, model.shards) {
        Err(fault) => Err(fault),
        Ok(layer_tensors) => match quantized_spans(model.safetensors, model.shards) {
            Err(fault) => Err(fault),
            Ok(quantized) => match group_spans(model.safetensors, model.shards) {
                Err(fault) => Err(fault),
                Ok(groups) => Ok(
                    CheckpointCatalog {
                        model_path: model.model_path,
                        safetensors: model.safetensors,
                        layer_tensors,
                        quantized_linears: weights_by_name(quantized),
                        routed_experts: groups_by_place(groups),
                    },
                ),
            },
        },
    }
}

impl LocalModelCheckpointCatalog {
    /// Its parts are in order.
    pub closed spec fn wf(self) -> bool {
        &&& self.safetensors.wf()
        &&& self.layer_tensors.wf()
        &&& self.quantized_linears.wf()
        &&& self.routed_experts.wf()
    }

    /// All that the checkpoint of a model holds.
    pub fn from_local_model_artifacts(artifacts: &LocalModelArtifacts) -> (catalog: Result<
        LocalModelCheckpointCatalog,
        ModelArtifactError,
    >)
        requires
            artifacts.wf(),
        ensures
            match catalog {
                Ok(c) => c.wf() && catalog_of(artifacts@) == Ok::<CheckpointCatalog, ArtifactFault>(
                    c@,
                ),
                Err(e) => catalog_of(artifacts@) == Err::<CheckpointCatalog, ArtifactFault>(e@),
            },
    {
        let layer_tensors = match artifacts.safetensors.layer_tensor_catalog(&artifacts.shards) {
            Ok(catalog) => catalog,
            Err(error) => {
                return Err(error);
            },
        };
        let quantized_linears =
            match SafetensorsQuantizedLinearWeightCatalog::from_safetensors_manifest(
            &artifacts.safetensors,
            &artifacts.shards,
        ) {
            Ok(catalog) => catalog,
            Err(error) => {
                return Err(error);
            },
        };
        let routed_experts = match artifacts.routed_expert_weight_catalog() {
            Ok(catalog) => catalog,
            Err(error) => {
                return Err(error);
            },
        };
        Ok(
            LocalModelCheckpointCatalog {
                model_path: artifacts.model_path.clone(),
                safetensors: artifacts.safetensors.copy(),
                layer_tensors,
                quantized_linears,
                routed_experts,
            },
        )
    }

    /// The tensors of the layers.
    pub fn layer_tensors(&self) -> (catalog: &SafetensorsLayerTensorCatalog)
        requires
            self.wf(),
        ensures
            catalog.wf(),
            catalog@ == self@.layer_tensors,
    {
        &self.layer_tensors
    }

    /// The directory of the model.
    pub fn model_path(&self) -> (path: &str)
        ensures
            path@ == self@.model_path,
    {
        self.model_path.as_str()
    }

    /// The manifest.
    pub fn safetensors(&self) -> (manifest: &SafetensorsManifest)
        requires
            self.wf(),
        ensures
            manifest.wf(),
            manifest@ == self@.safetensors,
    {
        &self.safetensors
    }

    /// The quantized weights.
    pub fn quantized_linear_weights(&self) -> (catalog: &SafetensorsQuantizedLinearWeightCatalog)
        requires
            self.wf(),
        ensures
            catalog.wf(),
            catalog@ == self@.quantized_linears,
    {
        &self.quantized_linears
    }

    /// The routed experts.
    pub fn routed_experts(&self) -> (catalog: &SafetensorsRoutedExpertWeightCatalog)
        requires
            self.wf(),
        ensures
            catalog.wf(),
            catalog@ == self@.routed_experts,
    {
        &self.routed_experts
    }
}

} // verus!
