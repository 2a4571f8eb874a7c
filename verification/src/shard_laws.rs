//! What is found in the shards of a checkpoint, and what of it a checkpoint must hold.
use vstd::prelude::*;

use crate::deepseek::MlaMoeConfig;
use crate::hybrid_laws::defined_by;
use crate::listing::{sorted, value_of_key};
use crate::local_model::{experts_of_layer, groups_by_place, CheckpointCatalog, LocalModel};
use crate::mla_moe::{layers_found, names_found, root_found, MlaMoeCheckpointFlavor};
use crate::model_config::HfModelConfig;
use crate::model_definition::ModelDefinition;
use crate::model_registry::AdapterConfig;
use crate::models::RuntimeDtype;
use crate::ordered_map::ExpertPlace;
use crate::routed_experts::{group_place, ExpertGroup};
use crate::safetensors_manifest::{read_of, Manifest};
use crate::safetensors_spans::{metadata_from, metadata_in, span_of, Reads};
use crate::stream_session::{StreamSession, StreamStep};

verus! {

/// What is known of a tensor that an index names is what the header of its shard says.
pub proof fn named_tensors_are_those_of_their_shard(
    manifest: Manifest,
    reads: Reads,
    name: Seq<char>,
    path: Seq<char>,
)
    requires
        value_of_key(manifest.tensor_to_shard, name) == Some(path),
        read_of(reads, path) is Some && read_of(reads, path)->0 is Loaded,
    ensures
        metadata_in(manifest, reads, name) is Ok,
        metadata_in(manifest, reads, name)->Ok_0 == value_of_key(
            read_of(reads, path)->0->header.tensors,
            name,
        ),
{
}

/// Shards before the one that has a tensor do not have it.
pub proof fn lemma_first_shard(
    paths: Seq<Seq<char>>,
    reads: Reads,
    name: Seq<char>,
    from: nat,
    at: int,
)
    requires
        from <= at < paths.len(),
        forall|i: int|
            from <= i < at ==> read_of(reads, #[trigger] paths[i])->0 is Loaded && value_of_key(
                read_of(reads, paths[i])->0->header.tensors,
                name,
            ) is None,
        read_of(reads, paths[at])->0 is Loaded,
        value_of_key(read_of(reads, paths[at])->0->header.tensors, name) is Some,
    ensures
        metadata_from(paths, reads, name, from) is Ok,
        metadata_from(paths, reads, name, from)->Ok_0 == value_of_key(
            read_of(reads, paths[at])->0->header.tensors,
            name,
        ),
    decreases at - from,
{
    if from < at {
        assert(read_of(reads, paths[from as int])->0 is Loaded);
        lemma_first_shard(paths, reads, name, from + 1, at);
    }
}

/// A tensor that no index names is that of the first shard that has it.
pub proof fn unnamed_tensors_are_those_of_the_first_shard(
    manifest: Manifest,
    reads: Reads,
    name: Seq<char>,
    at: int,
)
    requires
        value_of_key(manifest.tensor_to_shard, name) is None,
        0 <= at < manifest.shard_paths.len(),
        forall|i: int|
            0 <= i < at ==> read_of(reads, #[trigger] manifest.shard_paths[i])->0 is Loaded
                && value_of_key(
                read_of(reads, manifest.shard_paths[i])->0->header.tensors,
                name,
            ) is None,
        read_of(reads, manifest.shard_paths[at])->0 is Loaded,
        value_of_key(
            read_of(reads, manifest.shard_paths[at])->0->header.tensors,
            name,
        ) is Some,
    ensures
        metadata_in(manifest, reads, name) is Ok,
        metadata_in(manifest, reads, name)->Ok_0 == value_of_key(
            read_of(reads, manifest.shard_paths[at])->0->header.tensors,
            name,
        ),
{
    lemma_first_shard(manifest.shard_paths, reads, name, 0, at);
}

/// A layer has a tensor.
pub open spec fn has_tensor(catalog: CheckpointCatalog, layer: usize, name: Seq<char>) -> bool {
    catalog.layer_tensors.dom().contains((layer, name))
}

/// The names that were found are there.
pub proof fn lemma_names(
    path: Seq<char>,
    catalog: CheckpointCatalog,
    family: Seq<char>,
    layer: usize,
    names: Seq<Seq<char>>,
    n: nat,
)
    requires
        n <= names.len(),
    ensures
        names_found(path, catalog, family, layer, names, n) is Ok <==> forall|i: int|
            0 <= i < n ==> has_tensor(catalog, layer, #[trigger] names[i]),
    decreases n,
{
    if n > 0 {
        lemma_names(path, catalog, family, layer, names, (n - 1) as nat);
        if forall|i: int| 0 <= i < n ==> has_tensor(catalog, layer, #[trigger] names[i]) {
            assert(has_tensor(catalog, layer, names[n - 1]));
        }
        if names_found(path, catalog, family, layer, names, n) is Ok {
            assert forall|i: int| 0 <= i < n implies has_tensor(
                catalog,
                layer,
                #[trigger] names[i],
            ) by {}
        }
    }
}

/// The layers that were found are there.
pub proof fn lemma_layers(
    catalog: CheckpointCatalog,
    config: MlaMoeConfig,
    flavor: MlaMoeCheckpointFlavor,
    n: nat,
    layer: usize,
)
    requires
        layers_found(catalog, config, flavor, n) is Ok,
        layer < n <= usize::MAX,
    ensures
        crate::mla_moe::layer_found(catalog, config, flavor, layer) is Ok,
    decreases n,
{
    if layer < n - 1 {
        lemma_layers(catalog, config, flavor, (n - 1) as nat, layer);
    }
}

/// A checkpoint that is accepted has the tensors of the whole model: the embeddings, the last norm and
/// the head.
pub proof fn accepted_checkpoints_have_their_root(model: LocalModel, family: Seq<char>)
    requires
        root_found(model, family) is Ok,
    ensures
        ({
            let found = |name: Seq<char>| span_of(model.safetensors, model.shards, name);
            &&& found("model.embed_tokens.weight"@) matches Ok(Some(_))
            &&& found("model.norm.weight"@) matches Ok(Some(_))
            &&& found("lm_head.weight"@) matches Ok(Some(_))
        }),
{
}

/// A layer of an accepted checkpoint has the scores of its experts and some expert where it is a
/// mixture, and the three projections of a dense network where it is not.
pub proof fn accepted_layers_have_their_network(
    catalog: CheckpointCatalog,
    config: MlaMoeConfig,
    flavor: MlaMoeCheckpointFlavor,
    n: nat,
    layer: usize,
)
    requires
        layers_found(catalog, config, flavor, n) is Ok,
        layer < n <= usize::MAX,
    ensures
        forall|i: int|
            0 <= i < crate::mla_moe::layer_names_of(flavor).len() ==> has_tensor(
                catalog,
                layer,
                #[trigger] crate::mla_moe::layer_names_of(flavor)[i],
            ),
        config.moe_layer(layer as nat, config.num_hidden_layers->0 as nat) ==> has_tensor(
            catalog,
            layer,
            "mlp.gate.weight"@,
        ) && experts_of_layer(
            sorted::<ExpertPlace, ExpertGroup>(catalog.routed_experts),
            layer,
        ).len() > 0,
        !config.moe_layer(layer as nat, config.num_hidden_layers->0 as nat) ==> forall|i: int|
            0 <= i < crate::mla_moe::dense_names_of(flavor).len() ==> has_tensor(
                catalog,
                layer,
                #[trigger] crate::mla_moe::dense_names_of(flavor)[i],
            ),
{
    lemma_layers(catalog, config, flavor, n, layer);
    let path = catalog.model_path;
    let family = crate::mla_moe::family_name(flavor);
    let common = crate::mla_moe::layer_names_of(flavor);
    let dense = crate::mla_moe::dense_names_of(flavor);
    let scores = seq!["mlp.gate.weight"@];
    lemma_names(path, catalog, family, layer, common, common.len());
    lemma_names(path, catalog, family, layer, dense, dense.len());
    lemma_names(path, catalog, family, layer, scores, 1);
    assert(scores[0] == "mlp.gate.weight"@);
}

/// Experts are found where their groups say.
pub proof fn experts_are_found_at_their_places(groups: Seq<ExpertGroup>, i: int)
    requires
        0 <= i < groups.len(),
        forall|j: int|
            i < j < groups.len() ==> group_place(#[trigger] groups[j]) != group_place(groups[i]),
    ensures
        groups_by_place(groups).dom().contains(group_place(groups[i])),
        groups_by_place(groups)[group_place(groups[i])] == groups[i],
    decreases groups.len(),
{
    let front = groups.drop_last();
    if i < front.len() {
        assert(front[i] == groups[i]);
        assert forall|j: int| i < j < front.len() implies group_place(#[trigger] front[j])
            != group_place(front[i]) by {
            assert(front[j] == groups[j]);
        }
        experts_are_found_at_their_places(front, i);
        assert(groups.last() == groups[groups.len() - 1]);
    } else {
        assert(groups.last() == groups[i]);
    }
}

/// The experts of a layer are those at its places, and no others.
pub proof fn layers_hold_their_own_experts(
    experts: Seq<(ExpertPlace, ExpertGroup)>,
    layer: usize,
    i: int,
)
    requires
        0 <= i < experts.len(),
    ensures
        experts[i].0.layer_id == layer ==> experts_of_layer(experts, layer).contains(experts[i].1),
        (forall|k: int| 0 <= k < experts.len() ==> (#[trigger] experts[k]).0.layer_id != layer)
            ==> experts_of_layer(experts, layer).len() == 0,
    decreases experts.len(),
{
    let front = experts.drop_last();
    let list = experts_of_layer(experts, layer);
    let before = experts_of_layer(front, layer);
    assert(experts.last() == experts[experts.len() - 1]);
    if front.len() > 0 {
        let at = if i < front.len() {
            i
        } else {
            0
        };
        layers_hold_their_own_experts(front, layer, at);
        assert(front[at] == experts[at]);
        if i < front.len() && experts[i].0.layer_id == layer {
            let k = choose|k: int| 0 <= k < before.len() && before[k] == experts[i].1;
            assert(list[k] == experts[i].1);
        }
        if forall|k: int| 0 <= k < experts.len() ==> (#[trigger] experts[k]).0.layer_id != layer {
            assert forall|k: int| 0 <= k < front.len() implies (#[trigger] front[k]).0.layer_id
                != layer by {
                assert(front[k] == experts[k]);
            }
        }
    } else {
        assert(front =~= Seq::empty());
        assert(before.len() == 0);
    }
    if i == experts.len() - 1 && experts[i].0.layer_id == layer {
        assert(list[list.len() - 1] == experts[i].1);
    }
}

/// A definition tells the type and the ending tokens of its configuration, and an architecture that
/// the configuration names.
#[verifier::rlimit(40)]
pub proof fn definitions_tell_their_configuration(
    definition: ModelDefinition,
    hf_config: HfModelConfig,
    config: AdapterConfig,
)
    requires
        defined_by(definition, hf_config, config),
    ensures
        definition.eos_token_ids@ == hf_config@.eos_token_ids,
        definition.model_type matches Some(name) ==> hf_config@.model_type == Some(name@),
        definition.model_type is None ==> hf_config@.model_type is None,
        config is QwenDense ==> definition.supported_dtypes@.contains(RuntimeDtype::F32)
            && definition.supported_dtypes@.contains(RuntimeDtype::Fp16)
            && definition.supported_dtypes@.contains(RuntimeDtype::Bf16),
{
    if config is QwenDense {
        let dtypes = definition.supported_dtypes@;
        assert(dtypes[0] == RuntimeDtype::F32 && dtypes[1] == RuntimeDtype::Fp16 && dtypes[2]
            == RuntimeDtype::Bf16);
    }
}

/// Frames that were encoded are sent as they are, and the stream goes on; a stream whose answer cannot
/// be encoded sends one frame more and ends.
pub proof fn streams_end_where_an_answer_cannot_be_encoded(
    encoded: Result<Vec<String>, String>,
    step: StreamStep,
)
    requires
        call_ensures(StreamSession::step, (encoded,), step),
    ensures
        step.goes_on <==> encoded is Ok,
        encoded matches Ok(frames) ==> step.frames@ == frames@,
        encoded is Err ==> step.frames@.len() == 1,
{
    if encoded is Err {
        assert(crate::text::texts(step.frames@).len() == step.frames@.len());
    }
}

/// A stream ends with the mark of its end, behind its failure where it has one.
pub proof fn streams_end_with_their_mark(failure: Option<&str>, frames: Vec<String>)
    requires
        call_ensures(StreamSession::closing, (failure,), frames),
    ensures
        frames@.len() == (if failure is Some {
            2int
        } else {
            1int
        }),
        frames@.last()@ == "data: [DONE]\n\n"@,
{
    let told = crate::text::texts(frames@);
    assert(told.len() == frames@.len());
    assert(told.last() == frames@.last()@);
}

/// A stream is served where it did not fail and nothing was lost.
pub proof fn streams_are_served_where_nothing_was_lost(
    session: StreamSession,
    failed: bool,
    served: bool,
    fresh: StreamSession,
)
    requires
        call_ensures(StreamSession::is_served, (&session, failed), served),
        call_ensures(StreamSession::new, (), fresh),
    ensures
        served <==> !failed && session.is_connected(),
        fresh.is_connected(),
{
}

} // verus!
