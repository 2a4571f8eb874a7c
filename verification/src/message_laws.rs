//! What the messages of errors tell, and in which order.
use vstd::prelude::*;

use crate::artifact_error::{ArtifactFault, ModelArtifactError};
use crate::bootstrap_frame::{FrameFault, MooncakeBootstrapFrameError};
use crate::bootstrap_state::MooncakeRemoteKvLayoutError;
use crate::debug_text::shown_list;
use crate::model_forward::{ForwardFault, ModelForwardError};
use crate::model_registry::{ModelRegistryError, RegistryFault};
use crate::model_runtime::comma_list;
use crate::paged_kv_cache::{KvCachePoolError, PagedKvCacheLayoutError};
use crate::parallel::{ParallelTopologyError, TensorPartitionError};
use crate::recurrent_state::RecurrentStateSlotError;
use crate::text::decimal;
use crate::worker_group::{failures_text, GroupFault, WorkerGroupError};

verus! {

/// An error of a cache layout tells what was asked for before what there is.
pub proof fn cache_layout_errors_tell_what_does_not_fit(
    error: PagedKvCacheLayoutError,
    told: String,
)
    requires
        call_ensures(PagedKvCacheLayoutError::to_string, (&error,), told),
    ensures
        error matches PagedKvCacheLayoutError::RuntimePageSizeMismatch {
            expected,
            actual,
        } ==> told@
            == "KV cache runtime page size is "@ + decimal(actual as nat)
            + " bytes but page_size * bytes_per_token requires "@ + decimal(expected as nat)
            + " bytes"@,
        error matches PagedKvCacheLayoutError::UnevenLayerLayout {
            bytes_per_token,
            num_layers,
        } ==> told@
            == "KV cache token size "@ + decimal(bytes_per_token as nat)
            + " bytes is not divisible by "@ + decimal(num_layers as nat) + " layers"@,
        error matches PagedKvCacheLayoutError::UnevenTensorLayout {
            bytes_per_token_per_layer,
            kv_tensors_per_token,
        } ==> told@
            == "KV cache per-layer token size "@ + decimal(bytes_per_token_per_layer as nat)
            + " bytes is not divisible by "@ + decimal(kv_tensors_per_token as nat)
            + " KV tensors"@,
        error matches PagedKvCacheLayoutError::PageOutOfRange { page_index, page_count } ==> told@
            == "KV cache page index "@ + decimal(page_index as nat) + " is outside "@
            + decimal(page_count as nat) + " pages"@,
        error matches PagedKvCacheLayoutError::LayerOutOfRange {
            layer_index,
            layer_count,
        } ==> told@
            == "KV cache layer index "@ + decimal(layer_index as nat) + " is outside "@
            + decimal(layer_count as nat) + " layers"@,
        error matches PagedKvCacheLayoutError::TensorOutOfRange {
            tensor_index,
            tensor_count,
        } ==> told@
            == "KV cache tensor index "@ + decimal(tensor_index as nat) + " is outside "@
            + decimal(tensor_count as nat) + " tensors per token"@,
        error matches PagedKvCacheLayoutError::TokenOutOfRange { token_index, page_size } ==> told@
            == "KV cache token index "@ + decimal(token_index as nat) + " is outside page size "@
            + decimal(page_size as nat),
        error matches PagedKvCacheLayoutError::SlotOutOfRange { slot_index, slot_count } ==> told@
            == "KV cache slot index "@ + decimal(slot_index as nat) + " is outside "@
            + decimal(slot_count as nat) + " token slots"@,
        error matches PagedKvCacheLayoutError::BatchSlotOutOfRange {
            batch_index,
            slot_index,
            slot_count,
        } ==> told@
            == "KV cache batch slot "@ + decimal(batch_index as nat)
            + " references physical slot "@ + decimal(slot_index as nat) + ", outside "@
            + decimal(slot_count as nat) + " token slots"@,
        error matches PagedKvCacheLayoutError::TensorPairSizeMismatch {
            bytes_per_token_per_layer,
            key_token_bytes,
            value_token_bytes,
        } ==> told@
            == "KV tensor-pair widths ("@ + decimal(key_token_bytes as nat) + " key bytes + "@
            + decimal(value_token_bytes as nat)
            + " value bytes) do not match the runtime per-layer token size of "@
            + decimal(bytes_per_token_per_layer as nat) + " bytes"@,
        error matches PagedKvCacheLayoutError::UnevenKvPairCopy {
            key_token_bytes,
            value_token_bytes,
        } ==> told@
            == "the selected KV copy/attention kernel requires equal key and value widths, but the layout has "@
            + decimal(key_token_bytes as nat) + " key bytes and "@
            + decimal(value_token_bytes as nat) + " value bytes per token"@,
{
}

/// A memory of the wrong size is told by the bytes that it has and then by those that it needs.
pub proof fn memory_errors_tell_both_sizes(error: KvCachePoolError, told: String)
    requires
        call_ensures(KvCachePoolError::to_string, (&error,), told),
    ensures
        error matches KvCachePoolError::StorageSizeMismatch { expected, actual } ==> told@
            == "KV cache storage has "@ + decimal(actual as nat)
            + " bytes but layout requires exactly "@ + decimal(expected as nat) + " bytes"@,
{
}

/// An error of a group of ranks tells the rank or the size at fault before what it does not fit.
pub proof fn topology_errors_tell_their_ranks(error: ParallelTopologyError, told: String)
    requires
        call_ensures(ParallelTopologyError::to_string, (&error,), told),
    ensures
        error matches ParallelTopologyError::InvalidNodeRank { node_rank, node_count } ==> told@
            == "node rank "@ + decimal(node_rank as nat) + " must be smaller than node count "@
            + decimal(node_count as nat),
        error matches ParallelTopologyError::WorldSizeNotDivisible {
            world_size,
            node_count,
        } ==> told@
            == "tensor parallel world size "@ + decimal(world_size as nat)
            + " must be divisible by node count "@ + decimal(node_count as nat),
        error matches ParallelTopologyError::GlobalRankOverflow {
            node_rank,
            local_world_size,
        } ==> told@
            == "global tensor parallel rank overflowed for node rank "@ + decimal(node_rank as nat)
            + " and local world size "@ + decimal(local_world_size as nat),
        error matches ParallelTopologyError::DeviceOrdinalOverflow {
            base_device_ordinal,
            device_ordinal_step,
            local_rank,
        } ==> told@
            == "device ordinal overflowed for base "@ + decimal(base_device_ordinal as nat)
            + ", step "@ + decimal(device_ordinal_step as nat) + ", and local rank "@
            + decimal(local_rank as nat),
{
}

/// An error of a partition tells the part or the extent at fault before what it does not fit.
pub proof fn partition_errors_tell_their_parts(error: TensorPartitionError, told: String)
    requires
        call_ensures(TensorPartitionError::to_string, (&error,), told),
    ensures
        error matches TensorPartitionError::InvalidPartitionIndex {
            partition_index,
            partition_count,
        } ==> told@
            == "partition index "@ + decimal(partition_index as nat)
            + " must be smaller than partition count "@ + decimal(partition_count as nat),
        error matches TensorPartitionError::ShardCountExceedsWorldSize {
            shard_count,
            world_size,
        } ==> told@
            == "replicated shard count "@ + decimal(shard_count as nat)
            + " exceeds tensor parallel world size "@ + decimal(world_size as nat),
        error matches TensorPartitionError::WorldSizeNotDivisibleByShardCount {
            world_size,
            shard_count,
        } ==> told@
            == "tensor parallel world size "@ + decimal(world_size as nat)
            + " must be divisible by replicated shard count "@ + decimal(shard_count as nat),
        error matches TensorPartitionError::ExtentNotDivisible {
            extent,
            partition_count,
        } ==> told@
            == "tensor extent "@ + decimal(extent as nat)
            + " must be divisible by partition count "@ + decimal(partition_count as nat),
        error matches TensorPartitionError::PartitionRangeOverflow {
            extent,
            partition_count,
            partition_index,
        } ==> told@
            == "partition range overflowed for extent "@ + decimal(extent as nat)
            + ", partition count "@ + decimal(partition_count as nat) + ", and partition index "@
            + decimal(partition_index as nat),
{
}

/// Slots that are exhausted are told by how many there are, how many are taken and how many were
/// asked for.
pub proof fn slot_errors_tell_how_many_are_taken(error: RecurrentStateSlotError, told: String)
    requires
        call_ensures(RecurrentStateSlotError::to_string, (&error,), told),
    ensures
        error matches RecurrentStateSlotError::Exhausted {
            capacity,
            assigned,
            requested,
        } ==> told@
            == "recurrent state slots are exhausted: capacity="@ + decimal(capacity as nat)
            + ", assigned="@ + decimal(assigned as nat) + ", new requests="@
            + decimal( requested as nat, ),
{
}

/// A missing registration is told by its room and its session.
pub proof fn layout_errors_tell_room_and_session(error: MooncakeRemoteKvLayoutError, told: String)
    requires
        call_ensures(MooncakeRemoteKvLayoutError::to_string, (&error,), told),
    ensures
        error matches MooncakeRemoteKvLayoutError::MissingKvArgsRegistration {
            room,
            mooncake_session_id,
        } ==> told@
            == "missing Mooncake KVArgs registration for room "@ + decimal(room as nat)
            + " session "@ + mooncake_session_id@,
{
}

/// An error of a forward step tells how many came before how many were due.
pub proof fn forward_errors_tell_what_came_and_what_was_due(error: ModelForwardError, told: String)
    requires
        call_ensures(ModelForwardError::to_string, (&error,), told),
    ensures
        error@ matches ForwardFault::BatchSizeMismatch { request_count, output_count } ==> told@
            == "model forward output count ("@ + decimal(output_count as nat)
            + ") must match request count ("@ + decimal(request_count as nat) + ")"@,
        error@ matches ForwardFault::TokenLogitCountMismatch { token_count, logit_count } ==> told@
            == "model forward token logit count ("@ + decimal(logit_count as nat)
            + ") must match input token count ("@ + decimal(token_count as nat) + ")"@,
{
}

/// An error of a frame tells the field, and what was due before what came, or the length before
/// its width.
pub proof fn frame_errors_tell_the_field(error: MooncakeBootstrapFrameError, told: String)
    requires
        call_ensures(MooncakeBootstrapFrameError::to_string, (&error,), told),
    ensures
        error@ matches FrameFault::MissingField { frame, expected, actual } ==> told@
            == frame + " frame requires at least "@ + decimal(expected) + " fields, got "@
            + decimal(actual),
        error@ matches FrameFault::IntegerField { field, value } ==> told@
            == field + " must be an integer, got "@ + value,
        error@ matches FrameFault::BinaryLength { field, width, actual } ==> told@
            == field + " byte length "@ + decimal(actual) + " must be divisible by "@
            + decimal(width),
{
}

/// An error of a file of a model tells the path and then the reason.
pub proof fn file_errors_tell_the_path(error: ModelArtifactError, told: String)
    requires
        call_ensures(ModelArtifactError::to_string, (&error,), told),
    ensures
        error@ matches ArtifactFault::ReadModelConfig { path, message } ==> told@
            == "failed to read model config "@ + path + ": "@ + message,
        error@ matches ArtifactFault::InvalidModelConfig { path, message } ==> told@
            == "failed to parse model config "@ + path + ": "@ + message,
        error@ matches ArtifactFault::ReadSafetensorsIndex { path, message } ==> told@
            == "failed to read safetensors index "@ + path + ": "@ + message,
        error@ matches ArtifactFault::InvalidSafetensorsIndex { path, message } ==> told@
            == "failed to parse safetensors index "@ + path + ": "@ + message,
        error@ matches ArtifactFault::ReadModelDirectory { path, message } ==> told@
            == "failed to read model directory "@ + path + ": "@ + message,
        error@ matches ArtifactFault::ReadWeightShard { path, message } ==> told@
            == "failed to read safetensors shard "@ + path + ": "@ + message,
        error@ matches ArtifactFault::InvalidSafetensorsHeader { path, message } ==> told@
            == "failed to parse safetensors header "@ + path + ": "@ + message,
        error@ matches ArtifactFault::InvalidSafetensorsData { path, message } ==> told@
            == "failed to read safetensors tensor data "@ + path + ": "@ + message,
{
}

/// An error of choosing a model tells the model, then the architecture, then the reason.
pub proof fn registry_errors_tell_the_model(error: ModelRegistryError, told: String)
    requires
        call_ensures(ModelRegistryError::to_string, (&error,), told),
    ensures
        error@ matches RegistryFault::UnsupportedArchitectures {
            model_path,
            requested,
            supported,
        } ==> told@
            == "model "@ + model_path + " architectures "@ + shown_list(requested)
            + " are unsupported; registered architectures: "@ + shown_list(supported),
        error@ matches RegistryFault::BackendInitialization { requested, message } ==> told@
            == "failed to initialize requested runtime backend "@ + requested + ": "@ + message,
        error@ matches RegistryFault::MissingCapabilities {
            model_path,
            architecture,
            backend,
            missing,
        } ==> told@
            == "model "@ + model_path + " architecture "@ + architecture
            + " cannot start on backend "@ + backend + "; missing capabilities: "@
            + comma_list(missing, missing.len()),
        error@ matches RegistryFault::InvalidAdapterConfig {
            model_path,
            architecture,
            message,
        } ==> told@
            == "model "@ + model_path + " resolved architecture "@ + architecture
            + ", but its adapter rejected the configuration: "@ + message,
        error@ matches RegistryFault::ModelLoad { model_path, architecture, message } ==> told@
            == "failed to load model "@ + model_path + " architecture "@ + architecture + ": "@
            + message,
{
}

/// An error of a group of workers tells the rank or the stage, and then the reason.
pub proof fn group_errors_tell_the_stage(error: WorkerGroupError, told: String)
    requires
        call_ensures(WorkerGroupError::to_string, (&error,), told),
    ensures
        error@ matches GroupFault::ThreadSpawn { rank, message } ==> told@
            == "failed to spawn tensor parallel rank "@ + decimal(rank@.global) + " on device "@
            + decimal(rank@.device) + ": "@ + message,
        error@ matches GroupFault::RankFailures { stage, failures } ==> told@
            == "worker group "@ + stage + " failed"@ + failures_text(failures),
        error@ matches GroupFault::UnexpectedEvent { stage, detail } ==> told@
            == "worker group received an unexpected event during "@ + stage + ": "@ + detail,
{
}

} // verus!
