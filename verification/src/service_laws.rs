//! What the endpoints that tell of the service, and those that maintain it, promise.
use vstd::prelude::*;

use crate::answer_laws::{holds_integer, holds_text, holds_tokens, is_failure};
use crate::http_maintenance::{
    detokenized_batch_reply, detokenized_reply, parse_weight_version_request,
    parse_weights_by_name_request, parse_weights_request, plan_abort, profile_error_json,
    profile_output_dir, start_profile, stop_profile, tokenized_batch_reply, tokenized_reply,
    update_weights_bad_request, weight_version_updated, weights_updated, AbortPlan, ProfileError,
    WeightVersionRequest, WeightsByNameRequest, WeightsRequest,
};
use crate::http_replies::Reply;
use crate::http_service::{
    failed_transfer_engine_info_response, flush_cache, health, health_generate, health_probe,
    legacy_load, list_models, loads, model_info_json, outcome_reply, poll_transfers, server_info,
    transfer_engine_info_response, transfer_engine_rank, HttpServerInfo, PolledTransfers,
    RuntimeHealth, RuntimeLoad,
};
use crate::json::{Json, JsonNumber, JsonView};
use crate::payload_laws::is_integer;
use crate::router::{RouterGenerateRequest, RouterGetModelInfoResponse};
use crate::scoring_laws::{lemma_shows, shows};
use crate::text::signed_decimal;

verus! {

/// The members have different names.
pub proof fn lemma_service_names()
    ensures
        "id"@.len() == 2,
        "data"@.len() == 4 && "data"@[2] == 't',
        "rank"@.len() == 4 && "rank"@[2] == 'n',
        "root"@.len() == 4 && "root"@[2] == 'o',
        "text"@.len() == 4 && "text"@[2] == 'x',
        "count"@.len() == 5 && "count"@[0] == 'c',
        "dtype"@.len() == 5 && "dtype"@[0] == 'd',
        "error"@.len() == 5 && "error"@[0] == 'e',
        "loads"@.len() == 5 && "loads"@[0] == 'l',
        "topic"@.len() == 5 && "topic"@[0] == 't',
        "object"@.len() == 6 && "object"@[0] == 'o',
        "tokens"@.len() == 6 && "tokens"@[0] == 't',
        "dp_rank"@.len() == 7 && "dp_rank"@[0] == 'd' && "dp_rank"@[3] == 'r',
        "dp_size"@.len() == 7 && "dp_size"@[0] == 'd' && "dp_size"@[3] == 's',
        "healthy"@.len() == 7 && "healthy"@[0] == 'h' && "healthy"@[3] == 'l',
        "message"@.len() == 7 && "message"@[0] == 'm' && "message"@[3] == 's',
        "success"@.len() == 7 && "success"@[0] == 's' && "success"@[3] == 'c',
        "tp_size"@.len() == 7 && "tp_size"@[0] == 't' && "tp_size"@[3] == 's',
        "version"@.len() == 7 && "version"@[0] == 'v' && "version"@[3] == 's',
        "head_dim"@.len() == 8 && "head_dim"@[3] == 'd',
        "kv_cache"@.len() == 8 && "kv_cache"@[3] == 'c',
        "kv_heads"@.len() == 8 && "kv_heads"@[3] == 'h',
        "num_reqs"@.len() == 8 && "num_reqs"@[3] == '_',
        "owned_by"@.len() == 8 && "owned_by"@[3] == 'e',
        "aggregate"@.len() == 9 && "aggregate"@[1] == 'g',
        "kv_events"@.len() == 9 && "kv_events"@[1] == 'v',
        "page_size"@.len() == 9 && "page_size"@[1] == 'a',
        "publisher"@.len() == 9 && "publisher"@[1] == 'u',
        "timestamp"@.len() == 9 && "timestamp"@[1] == 'i',
        "block_size"@.len() == 10 && "block_size"@[0] == 'b' && "block_size"@[6] == 's',
        "model_path"@.len() == 10 && "model_path"@[0] == 'm' && "model_path"@[6] == 'p',
        "model_type"@.len() == 10 && "model_type"@[0] == 'm' && "model_type"@[6] == 't',
        "num_layers"@.len() == 10 && "num_layers"@[0] == 'n' && "num_layers"@[6] == 'y',
        "num_tokens"@.len() == 10 && "num_tokens"@[0] == 'n' && "num_tokens"@[6] == 'k',
        "vocab_size"@.len() == 10 && "vocab_size"@[0] == 'v' && "vocab_size"@[6] == 's',
        "new_version"@.len() == 11,
        "bos_token_id"@.len() == 12 && "bos_token_id"@[0] == 'b',
        "max_num_reqs"@.len() == 12 && "max_num_reqs"@[0] == 'm',
        "pad_token_id"@.len() == 12 && "pad_token_id"@[0] == 'p',
        "architectures"@.len() == 13 && "architectures"@[1] == 'r',
        "endpoint_host"@.len() == 13 && "endpoint_host"@[1] == 'n',
        "eos_token_ids"@.len() == 13 && "eos_token_ids"@[1] == 'o',
        "is_generation"@.len() == 13 && "is_generation"@[1] == 's',
        "max_model_len"@.len() == 13 && "max_model_len"@[1] == 'a',
        "enable_metrics"@.len() == 14 && "enable_metrics"@[0] == 'e',
        "tokenizer_path"@.len() == 14 && "tokenizer_path"@[0] == 't',
        "weight_version"@.len() == 14 && "weight_version"@[0] == 'w',
        "bytes_per_token"@.len() == 15 && "bytes_per_token"@[1] == 'y',
        "page_size_bytes"@.len() == 15 && "page_size_bytes"@[1] == 'a',
        "pending_batches"@.len() == 15 && "pending_batches"@[1] == 'e',
        "max_total_tokens"@.len() == 16 && "max_total_tokens"@[4] == 't',
        "num_running_reqs"@.len() == 16 && "num_running_reqs"@[4] == 'r',
        "num_waiting_reqs"@.len() == 16 && "num_waiting_reqs"@[4] == 'w',
        "completed_batches"@.len() == 17 && "completed_batches"@[0] == 'c',
        "max_req_input_len"@.len() == 17 && "max_req_input_len"@[0] == 'm',
        "served_model_name"@.len() == 17 && "served_model_name"@[0] == 's',
        "decode_queue_depth"@.len() == 18 && "decode_queue_depth"@[9] == 'e',
        "endpoint_port_base"@.len() == 18 && "endpoint_port_base"@[9] == 'p',
        "max_context_length"@.len() == 18 && "max_context_length"@[9] == 'x',
        "max_prefill_tokens"@.len() == 18 && "max_prefill_tokens"@[9] == 'l',
        "num_pending_tokens"@.len() == 18 && "num_pending_tokens"@[9] == 'n',
        "disaggregation_mode"@.len() == 19 && "disaggregation_mode"@[0] == 'd',
        "load_balance_method"@.len() == 19 && "load_balance_method"@[0] == 'l',
        "num_paused_requests"@.len() == 19 && "num_paused_requests"@[0] == 'n',
        "waiting_queue_depth"@.len() == 19 && "waiting_queue_depth"@[0] == 'w',
        "kv_tensors_per_token"@.len() == 20 && "kv_tensors_per_token"@[0] == 'k',
        "max_running_requests"@.len() == 20 && "max_running_requests"@[0] == 'm',
        "available_cache_pages"@.len() == 21,
        "has_audio_understanding"@.len() == 23 && "has_audio_understanding"@[4] == 'a',
        "has_image_understanding"@.len() == 23 && "has_image_understanding"@[4] == 'i',
        "preferred_sampling_params"@.len() == 25,
        "pending_descriptor_checksums"@.len() == 28,
        "disaggregation_bootstrap_port"@.len() == 29,
        "completed_descriptor_checksums"@.len() == 30,
        "remote_instance_transfer_engine_info"@.len() == 36,
{
    reveal_strlit("id");
    reveal_strlit("data");
    reveal_strlit("rank");
    reveal_strlit("root");
    reveal_strlit("text");
    reveal_strlit("count");
    reveal_strlit("dtype");
    reveal_strlit("error");
    reveal_strlit("loads");
    reveal_strlit("topic");
    reveal_strlit("object");
    reveal_strlit("tokens");
    reveal_strlit("dp_rank");
    reveal_strlit("dp_size");
    reveal_strlit("healthy");
    reveal_strlit("message");
    reveal_strlit("success");
    reveal_strlit("tp_size");
    reveal_strlit("version");
    reveal_strlit("head_dim");
    reveal_strlit("kv_cache");
    reveal_strlit("kv_heads");
    reveal_strlit("num_reqs");
    reveal_strlit("owned_by");
    reveal_strlit("aggregate");
    reveal_strlit("kv_events");
    reveal_strlit("page_size");
    reveal_strlit("publisher");
    reveal_strlit("timestamp");
    reveal_strlit("block_size");
    reveal_strlit("model_path");
    reveal_strlit("model_type");
    reveal_strlit("num_layers");
    reveal_strlit("num_tokens");
    reveal_strlit("vocab_size");
    reveal_strlit("new_version");
    reveal_strlit("bos_token_id");
    reveal_strlit("max_num_reqs");
    reveal_strlit("pad_token_id");
    reveal_strlit("architectures");
    reveal_strlit("endpoint_host");
    reveal_strlit("eos_token_ids");
    reveal_strlit("is_generation");
    reveal_strlit("max_model_len");
    reveal_strlit("enable_metrics");
    reveal_strlit("tokenizer_path");
    reveal_strlit("weight_version");
    reveal_strlit("bytes_per_token");
    reveal_strlit("page_size_bytes");
    reveal_strlit("pending_batches");
    reveal_strlit("max_total_tokens");
    reveal_strlit("num_running_reqs");
    reveal_strlit("num_waiting_reqs");
    reveal_strlit("completed_batches");
    reveal_strlit("max_req_input_len");
    reveal_strlit("served_model_name");
    reveal_strlit("decode_queue_depth");
    reveal_strlit("endpoint_port_base");
    reveal_strlit("max_context_length");
    reveal_strlit("max_prefill_tokens");
    reveal_strlit("num_pending_tokens");
    reveal_strlit("disaggregation_mode");
    reveal_strlit("load_balance_method");
    reveal_strlit("num_paused_requests");
    reveal_strlit("waiting_queue_depth");
    reveal_strlit("kv_tensors_per_token");
    reveal_strlit("max_running_requests");
    reveal_strlit("available_cache_pages");
    reveal_strlit("has_audio_understanding");
    reveal_strlit("has_image_understanding");
    reveal_strlit("preferred_sampling_params");
    reveal_strlit("pending_descriptor_checksums");
    reveal_strlit("disaggregation_bootstrap_port");
    reveal_strlit("completed_descriptor_checksums");
    reveal_strlit("remote_instance_transfer_engine_info");
}

/// A member is a boolean.
pub open spec fn holds_flag(document: JsonView, key: Seq<char>, flag: bool) -> bool {
    document.get(key) == Some(JsonView::Bool(flag))
}

/// A member is an array of numbers.
pub open spec fn holds_naturals(document: JsonView, key: Seq<char>, numbers: Seq<u64>) -> bool {
    document.get(key) matches Some(JsonView::Array(items)) && items.len() == numbers.len()
        && forall|i: int|
        0 <= i < items.len() ==> #[trigger] items[i] == JsonView::Number(
            JsonNumber::Unsigned(numbers[i]),
        )
}

/// A member is an array of texts.
pub open spec fn holds_texts(document: JsonView, key: Seq<char>, list: Seq<String>) -> bool {
    document.get(key) matches Some(JsonView::Array(items)) && items.len() == list.len()
        && forall|i: int|
        0 <= i < items.len() ==> #[trigger] items[i] == JsonView::Text(list[i]@)
}

/// A member is an integer, and is missing where there is none.
pub open spec fn may_hold(document: JsonView, key: Seq<char>, n: Option<usize>) -> bool {
    match n {
        Some(value) => holds_integer(document, key, value as int),
        None => document.get(key) is None,
    }
}

/// An answer tells whether the service is healthy.
pub open spec fn tells_health(
    reply: Reply,
    status: int,
    healthy: bool,
    message: Seq<char>,
) -> bool {
    &&& reply.status == status
    &&& holds_flag(reply.body@, "healthy"@, healthy)
    &&& holds_text(reply.body@, "message"@, message)
}

/// An answer tells whether something succeeded.
pub open spec fn tells_outcome(reply: Reply, status: int, success: bool, message: Seq<char>) -> bool {
    &&& reply.status == status
    &&& holds_flag(reply.body@, "success"@, success)
    &&& holds_text(reply.body@, "message"@, message)
}

/// A running service is healthy.
pub proof fn running_services_are_healthy(reply: Reply)
    requires
        call_ensures(health, (), reply),
    ensures
        tells_health(reply, 200, true, "ready"@),
{
    lemma_service_names();
    assert(reply@.status == reply.status);
}

/// A service is unhealthy exactly where its runtime was lost or failed to generate, and says why; the
/// queues of a runtime that only steers are told.
pub proof fn health_follows_the_runtime(found: RuntimeHealth, reply: Reply)
    requires
        call_ensures(health_generate, (found,), reply),
    ensures
        reply.status == (if found is Poisoned || found is Failed {
            503int
        } else {
            200int
        }),
        holds_flag(reply.body@, "healthy"@, !(found is Poisoned || found is Failed)),
        found is Busy ==> holds_text(
            reply.body@,
            "message"@,
            "runtime is actively serving a request"@,
        ),
        found is Poisoned ==> holds_text(
            reply.body@,
            "message"@,
            "router runtime mutex poisoned"@,
        ),
        found is Generated ==> holds_text(reply.body@, "message"@, "ready"@),
        found matches RuntimeHealth::Failed(message) ==> holds_text(
            reply.body@,
            "message"@,
            message@,
        ),
        found matches RuntimeHealth::ControlPlane(load) ==> {
            &&& holds_text(reply.body@, "message"@, "PD runtime control plane is ready"@)
            &&& holds_integer(
                reply.body@,
                "waiting_queue_depth"@,
                load.waiting_queue_depth as int,
            )
            &&& holds_integer(reply.body@, "decode_queue_depth"@, load.decode_queue_depth as int)
        },
{
    lemma_service_names();
    assert(reply@.status == reply.status);
}

/// A probe generates one token from one token, without chance.
pub proof fn probes_generate_one_token(request: RouterGenerateRequest)
    requires
        call_ensures(health_probe, (), request),
    ensures
        request@.tokenized matches Some((text, tokens)) && text.len() == 0 && tokens == seq![0u32],
        request@.sampling is Some && request@.sampling->0.max_new_tokens == Some(1i32),
        request@.sampling->0.temperature == Some(JsonNumber::Float(0)),
        !request@.stream,
{
}

/// The one model that is served is listed under its name and path.
pub proof fn served_models_are_listed(info: RouterGetModelInfoResponse, reply: Reply)
    requires
        call_ensures(list_models, (&info,), reply),
    ensures
        reply.status == 200,
        holds_text(reply.body@, "object"@, "list"@),
        reply.body@.get("data"@) is Some && reply.body@.get("data"@)->0 is Array,
        reply.body@.get("data"@)->0->Array_0.len() == 1,
        ({
            let entry = reply.body@.get("data"@)->0->Array_0[0];
            &&& holds_text(entry, "id"@, info.served_model_name@)
            &&& holds_text(entry, "object"@, "model"@)
            &&& holds_text(entry, "owned_by"@, "sglang-rs"@)
            &&& holds_text(entry, "root"@, info.model_path@)
        }),
{
    lemma_service_names();
    assert(reply@.status == reply.status);
}

/// Every field of a model is told under its own name.
pub proof fn models_are_described(info: RouterGetModelInfoResponse, json: Json)
    requires
        call_ensures(model_info_json, (&info,), json),
    ensures
        holds_text(json@, "model_path"@, info.model_path@),
        holds_text(json@, "tokenizer_path"@, info.tokenizer_path@),
        holds_flag(json@, "is_generation"@, info.is_generation),
        holds_text(json@, "preferred_sampling_params"@, info.preferred_sampling_params@),
        holds_text(json@, "weight_version"@, info.weight_version@),
        holds_flag(json@, "has_image_understanding"@, info.supports_vision),
        holds_flag(json@, "has_audio_understanding"@, false),
        holds_text(json@, "model_type"@, info.model_type@),
        holds_texts(json@, "architectures"@, info.architectures@),
        holds_integer(json@, "max_context_length"@, info.max_context_length as int),
        holds_integer(json@, "vocab_size"@, info.vocab_size as int),
        holds_integer(json@, "pad_token_id"@, info.pad_token_id as int),
        holds_integer(json@, "bos_token_id"@, info.bos_token_id as int),
        holds_integer(json@, "max_req_input_len"@, info.max_req_input_len as int),
        json@.get("eos_token_ids"@) is Some && json@.get("eos_token_ids"@)->0 is Array,
        json@.get("eos_token_ids"@)->0->Array_0.len() == info.eos_token_ids@.len(),
        forall|i: int|
            0 <= i < info.eos_token_ids@.len() ==> is_integer(
                json@.get("eos_token_ids"@)->0->Array_0[i],
                #[trigger] info.eos_token_ids@[i] as int,
            ),
{
    lemma_service_names();
    let names = info.architectures@.map_values(|s: String| JsonView::Text(s@));
    assert(names.len() == info.architectures@.len());
    let tokens = info.eos_token_ids@.map_values(|n: i32| crate::http_replies::integer_of(n));
    assert(tokens.len() == info.eos_token_ids@.len());
}

/// Every field of a server is told under its own name, and those that are not set are not told.
#[verifier::rlimit(60)]
pub proof fn servers_are_described(
    info: RouterGetModelInfoResponse,
    server: HttpServerInfo,
    reply: Reply,
)
    requires
        call_ensures(server_info, (&info, &server), reply),
    ensures
        reply.status == 200,
        holds_text(reply.body@, "served_model_name"@, info.served_model_name@),
        holds_text(reply.body@, "model_path"@, info.model_path@),
        holds_integer(reply.body@, "tp_size"@, server.tp_size as int),
        holds_integer(reply.body@, "dp_size"@, server.dp_size as int),
        holds_text(reply.body@, "load_balance_method"@, server.load_balance_method@),
        holds_text(reply.body@, "disaggregation_mode"@, server.disaggregation_mode@),
        holds_flag(reply.body@, "enable_metrics"@, server.enable_metrics),
        may_hold(reply.body@, "max_running_requests"@, server.max_running_requests),
        may_hold(reply.body@, "max_num_reqs"@, server.max_running_requests),
        may_hold(reply.body@, "max_prefill_tokens"@, server.max_prefill_tokens),
        may_hold(reply.body@, "max_total_tokens"@, server.max_total_tokens),
        match server.disaggregation_bootstrap_port {
            Some(port) => holds_integer(
                reply.body@,
                "disaggregation_bootstrap_port"@,
                port as int,
            ),
            None => reply.body@.get("disaggregation_bootstrap_port"@) is None,
        },
        server.kv_events is None ==> reply.body@.get("kv_events"@) is None,
        server.kv_cache is None ==> reply.body@.get("kv_cache"@) is None,
        server.kv_events is Some ==> reply.body@.get("kv_events"@) is Some,
        server.kv_cache is Some ==> reply.body@.get("kv_cache"@) is Some,
{
    lemma_service_names();
    assert(reply@.status == reply.status);
}

/// What a server tells of its cache and of the events of its cache stands under the names of the
/// fields.
#[verifier::rlimit(60)]
pub proof fn caches_are_described(
    info: RouterGetModelInfoResponse,
    server: HttpServerInfo,
    reply: Reply,
)
    requires
        call_ensures(server_info, (&info, &server), reply),
    ensures
        server.kv_events matches Some(events) ==> {
            let told = reply.body@.get("kv_events"@)->0;
            &&& holds_text(told, "publisher"@, events.publisher@)
            &&& holds_text(told, "endpoint_host"@, events.endpoint_host@)
            &&& holds_integer(told, "endpoint_port_base"@, events.endpoint_port_base as int)
            &&& holds_text(told, "topic"@, events.topic@)
            &&& holds_integer(told, "block_size"@, events.block_size as int)
            &&& holds_integer(told, "dp_size"@, events.dp_size as int)
        },
        server.kv_cache matches Some(cache) ==> {
            let told = reply.body@.get("kv_cache"@)->0;
            &&& holds_text(told, "dtype"@, cache.dtype@)
            &&& holds_integer(told, "page_size"@, cache.page_size as int)
            &&& holds_integer(told, "num_layers"@, cache.num_layers as int)
            &&& holds_integer(told, "kv_heads"@, cache.kv_heads as int)
            &&& holds_integer(told, "head_dim"@, cache.head_dim as int)
            &&& holds_integer(told, "kv_tensors_per_token"@, cache.kv_tensors_per_token as int)
            &&& holds_integer(told, "bytes_per_token"@, cache.bytes_per_token as int)
            &&& holds_integer(told, "page_size_bytes"@, cache.page_size_bytes as int)
        },
{
    lemma_service_names();
}

/// A rank is asked for by a number that is not negative; any other request is refused.
pub proof fn ranks_are_asked_for(rank: Option<i32>, asked: Result<i32, Reply>)
    requires
        call_ensures(transfer_engine_rank, (rank,), asked),
    ensures
        asked is Ok <==> rank is Some && rank->0 >= 0,
        asked is Ok ==> rank == Some(asked->Ok_0),
        asked matches Err(reply) ==> is_failure(reply, 400, "Missing or invalid rank parameter"@),
{
    lemma_service_names();
    if let Err(reply) = asked {
        assert(reply@.status == reply.status);
    }
}

/// What is known of the engine of a rank stands beside its session.
pub proof fn engines_are_told_with_their_sessions(
    rank: i32,
    session_id: &str,
    weights: Json,
    reply: Reply,
    refused: Reply,
)
    requires
        call_ensures(transfer_engine_info_response, (rank, session_id, weights), reply),
        call_ensures(failed_transfer_engine_info_response, (rank,), refused),
    ensures
        reply.status == 200,
        holds_integer(reply.body@, "rank"@, rank as int),
        reply.body@.get("remote_instance_transfer_engine_info"@) == Some(
            JsonView::Array(seq![JsonView::Text(session_id@), weights@]),
        ),
        is_failure(
            refused,
            400,
            "Failed to get transfer engine info for rank "@ + signed_decimal(rank as int),
        ),
{
    lemma_service_names();
    assert(reply@.status == reply.status);
    assert(refused@.status == refused.status);
}

/// Loads tell both queues, the free pages, and as many requests as both queues hold.
#[verifier::rlimit(40)]
pub proof fn loads_count_both_queues(
    load: RuntimeLoad,
    secs: u64,
    version: &str,
    reply: Reply,
    legacy: Reply,
)
    requires
        load.decode_queue_depth + load.waiting_queue_depth <= usize::MAX,
        call_ensures(loads, (load, secs, version), reply),
        call_ensures(legacy_load, (load,), legacy),
    ensures
        reply.status == 200 && legacy.status == 200,
        holds_integer(reply.body@, "timestamp"@, secs as int),
        holds_text(reply.body@, "version"@, version@),
        reply.body@.get("loads"@) is Some && reply.body@.get("loads"@)->0 is Array,
        reply.body@.get("loads"@)->0->Array_0.len() == 1,
        ({
            let entry = reply.body@.get("loads"@)->0->Array_0[0];
            &&& holds_integer(entry, "dp_rank"@, 0)
            &&& holds_integer(entry, "num_running_reqs"@, load.decode_queue_depth as int)
            &&& holds_integer(entry, "num_waiting_reqs"@, load.waiting_queue_depth as int)
            &&& holds_integer(
                entry,
                "num_reqs"@,
                load.decode_queue_depth + load.waiting_queue_depth,
            )
            &&& holds_integer(entry, "waiting_queue_depth"@, load.waiting_queue_depth as int)
            &&& holds_integer(entry, "decode_queue_depth"@, load.decode_queue_depth as int)
            &&& holds_integer(entry, "available_cache_pages"@, load.available_cache_pages as int)
        }),
        legacy.body@ is Array && legacy.body@->Array_0.len() == 1,
        holds_integer(
            legacy.body@->Array_0[0],
            "num_reqs"@,
            load.decode_queue_depth + load.waiting_queue_depth,
        ),
        holds_integer(
            legacy.body@->Array_0[0],
            "num_waiting_reqs"@,
            load.waiting_queue_depth as int,
        ),
{
    lemma_service_names();
    assert(reply@.status == reply.status);
    assert(legacy@.status == legacy.status);
}

/// Polling tells what was completed apart from what is pending.
pub proof fn polls_tell_what_was_completed(polled: PolledTransfers, reply: Reply)
    requires
        call_ensures(poll_transfers, (&polled,), reply),
    ensures
        reply.status == 200,
        holds_integer(reply.body@, "completed_batches"@, polled.completed_batches as int),
        holds_integer(reply.body@, "pending_batches"@, polled.pending_batches as int),
        holds_naturals(
            reply.body@,
            "completed_descriptor_checksums"@,
            polled.completed_descriptor_checksums@,
        ),
        holds_naturals(
            reply.body@,
            "pending_descriptor_checksums"@,
            polled.pending_descriptor_checksums@,
        ),
{
    lemma_service_names();
    assert(reply@.status == reply.status);
    let done = polled.completed_descriptor_checksums@.map_values(
        |checksum: u64| crate::http_service::number(checksum as int),
    );
    assert(done.len() == polled.completed_descriptor_checksums@.len());
    let open = polled.pending_descriptor_checksums@.map_values(
        |checksum: u64| crate::http_service::number(checksum as int),
    );
    assert(open.len() == polled.pending_descriptor_checksums@.len());
}

/// An outcome is told as it is.
pub proof fn outcomes_are_told(success: bool, message: &str, reply: Reply)
    requires
        call_ensures(outcome_reply, (success, message), reply),
    ensures
        tells_outcome(reply, 200, success, message@),
{
    lemma_service_names();
    assert(reply@.status == reply.status);
}

/// A cache that was not flushed is an error, with the reason where one is known.
pub proof fn flushes_that_fail_are_errors(success: bool, message: &str, answer: (u16, String))
    requires
        call_ensures(flush_cache, (success, message), answer),
    ensures
        answer.0 == 200 <==> success,
        !success ==> answer.0 == 400,
        !success && message@.len() > 0 ==> answer.1@ == message@,
        !success && message@.len() == 0 ==> answer.1@ == "Flush cache failed.\n"@,
{
}

/// Every request is aborted exactly where the payload says so. Else the one is that the payload
/// names, as `rid` before `request_id`.
pub proof fn aborts_name_their_request(payload: Json, plan: AbortPlan)
    requires
        call_ensures(plan_abort, (&payload,), plan),
    ensures
        plan is All <==> holds_flag(payload@, "abort_all"@, true),
        plan matches AbortPlan::One(request_id) ==> {
            &&& payload@.get("rid"@) matches Some(JsonView::Text(rid)) ==> request_id@ == rid
            &&& payload@.get("rid"@) is None ==> (payload@.get("request_id"@) matches Some(
                JsonView::Text(name),
            ) ==> request_id@ == name)
            &&& payload@.get("rid"@) is None && payload@.get("request_id"@) is None
                ==> request_id@.len() == 0
        },
{
    assert(plan@ is All <==> plan is All);
}

/// A profile is written to the directory that is named, which must show a name.
pub proof fn profiles_need_a_directory(output_dir: String, checked: Result<String, ProfileError>)
    requires
        call_ensures(profile_output_dir, (output_dir,), checked),
    ensures
        checked is Ok <==> shows(output_dir@),
        checked matches Ok(dir) ==> dir@ == output_dir@,
        checked matches Err(error) ==> error is InvalidArgument,
{
    lemma_shows();
    assert(crate::http_maintenance::is_blank(output_dir@) == !shows(output_dir@));
}

/// A wrong argument is the fault of the caller, everything else that of the service.
pub proof fn profile_errors_tell_whose_fault_they_are(error: ProfileError, reply: Reply)
    requires
        call_ensures(profile_error_json, (&error,), reply),
    ensures
        error matches ProfileError::InvalidArgument(message) ==> is_failure(reply, 400, message@),
        error matches ProfileError::Internal(message) ==> is_failure(reply, 500, message@),
{
    lemma_service_names();
    assert(reply@.status == reply.status);
}

/// A profile is started only where none runs, and stopped only where one does.
pub proof fn one_profile_runs_at_a_time(
    running: bool,
    output_dir: &str,
    started: Reply,
    path: Option<&str>,
    stopped: Reply,
)
    requires
        call_ensures(start_profile, (running, output_dir), started),
        call_ensures(stop_profile, (path,), stopped),
    ensures
        running ==> is_failure(started, 409, "profile is already running"@),
        !running ==> tells_outcome(started, 200, true, "profile started: "@ + output_dir@),
        path is None ==> is_failure(stopped, 412, "profile is not running"@),
        path matches Some(written) ==> tells_outcome(
            stopped,
            200,
            true,
            "profile stopped: "@ + written@,
        ),
{
    lemma_service_names();
    assert(started@.status == started.status);
    assert(stopped@.status == stopped.status);
}

/// Weights are loaded from the path that the payload names, in the format that it names where it
/// does. No request is paused by it, nor by a refusal.
pub proof fn weights_are_loaded_from_their_path(
    payload: Json,
    request: Result<WeightsRequest, Reply>,
)
    requires
        call_ensures(parse_weights_request, (&payload,), request),
    ensures
        request is Ok <==> {
            &&& payload@.get("model_path"@) is Some && payload@.get("model_path"@)->0 is Text
            &&& payload@.get("load_format"@) matches Some(format) ==> format is Null
                || format is Text
        },
        request matches Ok(made) ==> {
            &&& holds_text(payload@, "model_path"@, made.model_path@)
            &&& payload@.get("load_format"@) matches Some(JsonView::Text(format))
                ==> made.load_format is Some && made.load_format->0@ == format
            &&& made.load_format matches Some(format) ==> holds_text(
                payload@,
                "load_format"@,
                format@,
            )
        },
        request matches Err(reply) ==> reply.status == 400 && holds_flag(
            reply.body@,
            "success"@,
            false,
        ) && holds_integer(reply.body@, "num_paused_requests"@, 0),
{
    lemma_service_names();
    if let Err(reply) = request {
        assert(reply@.status == reply.status);
    }
}

/// Loading weights pauses no request, whether it succeeds or not.
pub proof fn loading_weights_pauses_no_request(message: &str, loaded: Reply, refused: Reply)
    requires
        call_ensures(weights_updated, (message,), loaded),
        call_ensures(update_weights_bad_request, (message,), refused),
    ensures
        tells_outcome(loaded, 200, true, message@),
        holds_integer(loaded.body@, "num_paused_requests"@, 0),
        tells_outcome(refused, 400, false, message@),
        holds_integer(refused.body@, "num_paused_requests"@, 0),
{
    lemma_service_names();
    assert(loaded@.status == loaded.status);
    assert(refused@.status == refused.status);
}

/// Weights get the name that the payload gives them, which must not be empty; the requests are
/// aborted unless the payload says otherwise.
pub proof fn weight_versions_are_named(
    payload: Json,
    request: Result<WeightVersionRequest, Reply>,
)
    requires
        call_ensures(parse_weight_version_request, (&payload,), request),
    ensures
        request is Ok <==> (payload@.get("new_version"@) matches Some(JsonView::Text(name))
            && name.len() > 0),
        request matches Ok(made) ==> {
            &&& holds_text(payload@, "new_version"@, made.new_version@)
            &&& payload@.get("abort_all_requests"@) is None ==> made.abort_all_requests
            &&& payload@.get("abort_all_requests"@) matches Some(JsonView::Bool(flag))
                ==> made.abort_all_requests == flag
        },
        request matches Err(reply) ==> tells_outcome(
            reply,
            400,
            false,
            "new_version is required and must be a non-empty string"@,
        ),
{
    lemma_service_names();
    if let Err(reply) = request {
        assert(reply@.status == reply.status);
    }
}

/// The new name of the weights is told back.
pub proof fn weight_versions_are_told(name: &str, reply: Reply)
    requires
        call_ensures(weight_version_updated, (name,), reply),
    ensures
        tells_outcome(reply, 200, true, "Weight version updated to "@ + name@),
        holds_text(reply.body@, "new_version"@, name@),
{
    lemma_service_names();
    assert(reply@.status == reply.status);
}

/// Weights are shown by their name, cut after as many values as the payload says.
pub proof fn weights_are_shown_by_name(
    payload: Json,
    request: Result<WeightsByNameRequest, Reply>,
)
    requires
        call_ensures(parse_weights_by_name_request, (&payload,), request),
    ensures
        request matches Ok(made) ==> {
            &&& holds_text(payload@, "name"@, made.name@)
            &&& payload@.get("truncate_size"@) matches Some(value) ==> if value is Null {
                made.truncate_size is None
            } else {
                made.truncate_size is Some && is_integer(value, made.truncate_size->0 as int)
            }
            &&& payload@.get("truncate_size"@) is None ==> made.truncate_size is None
        },
        payload@.get("name"@) is Some && payload@.get("name"@)->0 is Text && payload@.get(
            "truncate_size"@,
        ) is None ==> request is Ok,
        request matches Err(reply) ==> reply.status == 400,
{
    if let Err(reply) = request {
        assert(reply@.status == reply.status);
    }
}

/// Tokens are told in their order, with their number and the length of the context, or -1 where
/// that is not known.
pub proof fn tokens_are_told_with_their_number(
    tokens: Vec<u32>,
    max_context_length: i32,
    reply: Reply,
)
    requires
        call_ensures(tokenized_reply, (&tokens, max_context_length), reply),
    ensures
        reply.status == 200,
        holds_tokens(reply.body@, "tokens"@, tokens@),
        holds_integer(reply.body@, "count"@, tokens@.len() as int),
        max_context_length > 0 ==> holds_integer(
            reply.body@,
            "max_model_len"@,
            max_context_length as int,
        ),
        max_context_length <= 0 ==> holds_integer(reply.body@, "max_model_len"@, -1),
{
    lemma_service_names();
    assert(reply@.status == reply.status);
    assert(tokens@.len() == tokens.len());
    let told = tokens@.map_values(
        |token: u32| JsonView::Number(JsonNumber::Unsigned(token as u64)),
    );
    assert(told.len() == tokens@.len());
}

/// The tokens of each text of a batch are told at its place, with their number.
pub proof fn token_batches_are_told_in_order(
    batches: Vec<Vec<u32>>,
    max_context_length: i32,
    reply: Reply,
    i: int,
)
    requires
        call_ensures(tokenized_batch_reply, (&batches, max_context_length), reply),
        0 <= i < batches@.len(),
    ensures
        reply.status == 200,
        reply.body@.get("tokens"@) is Some && reply.body@.get("tokens"@)->0 is Array,
        reply.body@.get("count"@) is Some && reply.body@.get("count"@)->0 is Array,
        reply.body@.get("tokens"@)->0->Array_0.len() == batches@.len(),
        reply.body@.get("count"@)->0->Array_0.len() == batches@.len(),
        is_integer(reply.body@.get("count"@)->0->Array_0[i], batches@[i]@.len() as int),
        reply.body@.get("tokens"@)->0->Array_0[i] matches JsonView::Array(items) && items.len()
            == batches@[i]@.len() && forall|j: int|
            0 <= j < items.len() ==> #[trigger] items[j] == JsonView::Number(
                JsonNumber::Unsigned(batches@[i]@[j] as u64),
            ),
{
    lemma_service_names();
    assert(reply@.status == reply.status);
    assert(batches@[i]@.len() == batches@[i].len());
    let told = batches@[i]@.map_values(
        |token: u32| JsonView::Number(JsonNumber::Unsigned(token as u64)),
    );
    assert(told.len() == batches@[i]@.len());
}

/// The text of tokens is told as it was decoded; tokens that cannot be decoded are refused.
pub proof fn decoded_texts_are_told(decoded: Result<&str, &str>, reply: Reply)
    requires
        call_ensures(detokenized_reply, (decoded,), reply),
    ensures
        decoded matches Ok(text) ==> reply.status == 200 && holds_text(
            reply.body@,
            "text"@,
            text@,
        ),
        decoded matches Err(error) ==> is_failure(
            reply,
            400,
            "Error decoding tokens: "@ + error@
                + ". Input tokens might be invalid for the model."@,
        ),
{
    lemma_service_names();
    assert(reply@.status == reply.status);
}

/// The texts of a batch are told in their order.
pub proof fn decoded_batches_are_told_in_order(decoded: Vec<String>, reply: Reply)
    requires
        call_ensures(detokenized_batch_reply, (&decoded,), reply),
    ensures
        reply.status == 200,
        holds_texts(reply.body@, "text"@, decoded@),
{
    lemma_service_names();
    assert(reply@.status == reply.status);
}

} // verus!
