use std::sync::{Arc, Mutex};

use sglang_srt::http_answers::{
    batch_usage_fits, http_chat_batch_response_from_router_responses,
    http_completion_batch_response_from_router_responses,
};
use sglang_srt::http_maintenance::{
    detokenized_batch_reply, detokenized_reply, parse_weight_version_request,
    parse_weights_by_name_request, parse_weights_request, plan_abort, profile_error_json,
    profile_output_dir, start_profile, stop_profile, tokenized_batch_reply, tokenized_reply,
    update_weights_bad_request, weight_version_updated, weights_updated, AbortPlan, ProfileError,
};
use sglang_srt::http_plans::{
    finish_chat, finish_completion, finish_generate, plan_chat, plan_completion, plan_generate,
    plan_responses, transfer_polls, ChatPlan, CompletionPlan, GeneratePlan, Generated,
    ResponsesPlan,
};
use sglang_srt::http_replies::{
    bad_request_json, chat_stream_frame, completion_stream_frame, generate_stream_frame,
    internal_error_json, openai_response_id, router_protocol_error_json,
    router_runtime_error_json, sse_error_frame, Reply,
};
use sglang_srt::http_service::{
    failed_transfer_engine_info_response, flush_cache, health, health_generate, health_probe,
    legacy_load, list_models, loads, model_info_json, outcome_reply, poll_transfers, server_info,
    transfer_engine_info_response, transfer_engine_rank, HttpKvCacheInfo, HttpKvEventsInfo,
    HttpRouterService, HttpServeError, HttpServerInfo, PolledTransfers, RuntimeHealth, RuntimeLoad,
};
use sglang_srt::json::Json;
use sglang_srt::json_text::{parse_json, render_json};
use sglang_srt::openai_embedding::{
    embedding_share, embeddings_response_json, parse_classify_request, parse_embedding_request,
    splitmix64, EmbeddingOutput, TokenInput,
};
use sglang_srt::openai_rerank::{
    overlap, parse_rerank_request, rank_documents, rerank_results_to_json, shared_tokens,
    truncate_rerank_results,
};
use sglang_srt::openai_score::{
    classify_response_json, compose_score_prompt, parse_score_request, predicted_class,
    score_response_json, score_rule, ClassifyOutput, ScoreRule,
};
use sglang_srt::responses_stream::{finish_responses, ResponsesStreamEncoder};
use sglang_srt::stream_session::StreamSession;
use sglang_srt::router::{
    RouterGenerateChunk, RouterGenerateComplete, RouterGenerateError, RouterGenerateResponse,
    RouterGenerateResponseBody, RouterGetModelInfoResponse, RouterRuntimeError, RouterStatusCode,
};

fn json(text: &str) -> Json {
    parse_json(text.as_bytes()).expect("document")
}

fn text_of(json: &Json) -> String {
    render_json(json).expect("text")
}

fn answer(reply: Reply) -> (u16, String) {
    (reply.status, text_of(&reply.body))
}

fn chunk(text: &str) -> RouterGenerateResponse {
    RouterGenerateResponse {
        request_id: "r".to_string(),
        body: RouterGenerateResponseBody::Chunk(RouterGenerateChunk {
            text: text.to_string(),
            token_ids: vec![7],
            index: 0,
            prompt_tokens: 2,
            completion_tokens: 1,
            cached_tokens: 0,
        }),
    }
}

fn complete(text: &str) -> RouterGenerateResponse {
    RouterGenerateResponse {
        request_id: "r".to_string(),
        body: RouterGenerateResponseBody::Complete(RouterGenerateComplete {
            text: text.to_string(),
            output_ids: vec![7, 8],
            finish_reason: "stop".to_string(),
            index: 0,
            prompt_tokens: 3,
            completion_tokens: 2,
            cached_tokens: 1,
        }),
    }
}

fn failed(message: &str) -> RouterGenerateResponse {
    RouterGenerateResponse {
        request_id: "r".to_string(),
        body: RouterGenerateResponseBody::Error(RouterGenerateError {
            message: message.to_string(),
        }),
    }
}

fn refused(status_code: RouterStatusCode) -> RouterRuntimeError {
    RouterRuntimeError::Protocol {
        status_code,
        message: "no".to_string(),
    }
}

fn model() -> RouterGetModelInfoResponse {
    RouterGetModelInfoResponse {
        model_path: "/m".to_string(),
        tokenizer_path: "/t".to_string(),
        is_generation: true,
        preferred_sampling_params: String::new(),
        weight_version: "v1".to_string(),
        served_model_name: "m".to_string(),
        max_context_length: 10,
        vocab_size: 20,
        supports_vision: false,
        model_type: "qwen2".to_string(),
        architectures: vec!["A".to_string()],
        eos_token_ids: vec![1, 2],
        pad_token_id: 0,
        bos_token_id: -1,
        max_req_input_len: 9,
    }
}

#[test]
fn errors_have_their_status() {
    let body = r#"{"error":{"message":"no"}}"#.to_string();
    assert_eq!(answer(bad_request_json("no")), (400, body.clone()));
    assert_eq!(answer(internal_error_json("no")), (500, body.clone()));
    for (code, status) in [
        (RouterStatusCode::InvalidArgument, 400),
        (RouterStatusCode::ResourceExhausted, 429),
        (RouterStatusCode::FailedPrecondition, 412),
    ] {
        assert_eq!(answer(router_runtime_error_json(&refused(code))), (status, body.clone()));
        assert_eq!(answer(router_protocol_error_json(code, "no")), (status, body.clone()));
    }
    let broken = RouterRuntimeError::Runtime {
        message: "no".to_string(),
    };
    assert_eq!(answer(router_runtime_error_json(&broken)), (500, body));
}

#[test]
fn generated_answers_are_told() {
    let done = r#"{"finish_reason":"stop","output_ids":[7,8],"request_id":"r","text":"hi","usage":{"cached_tokens":1,"completion_tokens":2,"prompt_tokens":3}}"#;
    assert_eq!(
        answer(finish_generate(Ok(Generated::Single(vec![chunk("x"), complete("hi")])))),
        (200, done.to_string())
    );
    assert_eq!(
        answer(finish_generate(Ok(Generated::Batch(vec![vec![complete("hi")], vec![complete("hi")]])))),
        (200, format!("[{done},{done}]"))
    );
    let message = |reply: Reply| {
        assert_eq!(reply.status, 500);
        reply
            .body
            .get("error")
            .and_then(|error| error.get("message"))
            .and_then(Json::as_str)
            .expect("message")
            .to_string()
    };
    assert_eq!(
        message(finish_generate(Ok(Generated::Single(vec![])))),
        "generation produced no response"
    );
    assert_eq!(
        message(finish_generate(Ok(Generated::Single(vec![chunk("x")])))),
        "non-stream HTTP generate returned a stream chunk"
    );
    assert_eq!(
        message(finish_generate(Ok(Generated::Batch(vec![vec![complete("hi")], vec![failed("bad")]])))),
        "bad"
    );
    assert_eq!(
        message(finish_chat(Ok(Generated::Single(vec![chunk("x")])), "m")),
        "non-stream HTTP chat completion returned a stream chunk"
    );
    assert_eq!(message(finish_chat(Err(refused(RouterStatusCode::InvalidArgument)), "m")), "no");
}

#[test]
fn chats_and_completions_add_up_their_usage() {
    let batch = vec![vec![complete("a")], vec![complete("b")]];
    assert!(batch_usage_fits(&batch));
    let reply = http_chat_batch_response_from_router_responses(&batch, "m");
    assert_eq!(
        answer(reply),
        (200, r#"{"choices":[{"finish_reason":"stop","index":0,"message":{"content":"a","role":"assistant"}},{"finish_reason":"stop","index":1,"message":{"content":"b","role":"assistant"}}],"id":"chatcmpl-r","model":"m","object":"chat.completion","usage":{"cached_tokens":2,"completion_tokens":4,"prompt_tokens":6}}"#.to_string())
    );
    let reply = http_completion_batch_response_from_router_responses(&batch, "m");
    assert_eq!(reply.status, 200);
    assert_eq!(
        text_of(reply.body.get("usage").expect("usage")),
        r#"{"cached_tokens":2,"completion_tokens":4,"prompt_tokens":6,"total_tokens":10}"#
    );
    assert_eq!(
        answer(finish_chat(Ok(Generated::Single(vec![complete("a")])), "m")).1,
        r#"{"choices":[{"finish_reason":"stop","index":0,"message":{"content":"a","role":"assistant"}}],"id":"chatcmpl-r","model":"m","object":"chat.completion","usage":{"cached_tokens":1,"completion_tokens":2,"prompt_tokens":3}}"#
    );
    let reply = finish_completion(Ok(Generated::Single(vec![complete("a")])), "m");
    assert_eq!(reply.body.get("id").and_then(Json::as_str), Some("cmpl-r"));
    assert_eq!(finish_completion(Err(refused(RouterStatusCode::InvalidArgument)), "m").status, 500);
    assert_eq!(openai_response_id("cmpl-", "cmpl-r"), "cmpl-r");
}

#[test]
fn large_usage_is_noticed() {
    let mut big = complete("a");
    if let RouterGenerateResponseBody::Complete(body) = &mut big.body {
        body.prompt_tokens = i32::MAX;
    }
    assert!(!batch_usage_fits(&vec![vec![big], vec![complete("b")]]));
}

#[test]
fn requests_are_planned() {
    let meeting = r#"{"text": "x", "bootstrap_host": "h", "bootstrap_port": 1, "bootstrap_room": 2}"#;
    match plan_generate(json(meeting), None, false) {
        GeneratePlan::Reply(reply) => assert_eq!(
            answer(reply),
            (501, r#"{"error":{"message":"disaggregated HTTP generate requires a PD transfer-enabled runtime"}}"#.to_string())
        ),
        _ => panic!("expected a reply"),
    }
    assert!(matches!(plan_generate(json(meeting), None, true), GeneratePlan::Run(_)));
    assert!(matches!(
        plan_generate(json(r#"{"text": "x", "stream": true}"#), None, false),
        GeneratePlan::StreamText(_)
    ));
    assert!(matches!(
        plan_generate(json(r#"{"input_ids": [1], "stream": true}"#), None, false),
        GeneratePlan::StreamTokens(_)
    ));
    match plan_generate(json(r#"{"text": ["x", "y"], "stream": true}"#), None, false) {
        GeneratePlan::Reply(reply) => assert_eq!(
            answer(reply),
            (400, r#"{"error":{"message":"streaming batched /generate is not supported yet"}}"#.to_string())
        ),
        _ => panic!("expected a reply"),
    }
    match plan_chat(json(r#"{"model": "n", "messages": []}"#), "m", None, "p".to_string(), false) {
        ChatPlan::Reply(reply) => assert_eq!(
            answer(reply).1,
            r#"{"error":{"message":"model n is not served by this worker (m)"}}"#
        ),
        _ => panic!("expected a reply"),
    }
    let chat = r#"{"model": "m", "messages": [{"role": "user", "content": "x"}], "stream": true}"#;
    match plan_chat(json(chat), "m", None, "p".to_string(), false) {
        ChatPlan::Stream(request) => assert_eq!(request.text, "p"),
        _ => panic!("expected a stream"),
    }
    assert!(matches!(
        plan_completion(json(r#"{"model": "m", "prompt": "x"}"#), "m", None, false),
        CompletionPlan::Run(_)
    ));
    match plan_responses(
        json(r#"{"model": "m", "input": "x", "instructions": "y", "max_output_tokens": 5}"#),
        "m",
        None,
        false,
    ) {
        ResponsesPlan::Run(request) => {
            assert_eq!(request.request.text, "y\nx");
            assert_eq!(
                request.request.sampling_params.expect("sampling").max_new_tokens,
                Some(5)
            );
        }
        _ => panic!("expected a run"),
    }
    assert_eq!(transfer_polls(0), None);
    assert_eq!(transfer_polls(3), Some(3));
}

#[test]
fn streams_send_frames() {
    assert_eq!(
        generate_stream_frame(&chunk("hi")).expect("frame"),
        "data: {\"output_ids\":[7],\"request_id\":\"r\",\"text\":\"hi\",\"usage\":{\"cached_tokens\":0,\"completion_tokens\":1,\"prompt_tokens\":2}}\n\n"
    );
    assert_eq!(
        chat_stream_frame(&chunk("hi"), "m").expect("frame"),
        "data: {\"choices\":[{\"delta\":{\"content\":\"hi\"},\"finish_reason\":null,\"index\":0}],\"id\":\"chatcmpl-r\",\"model\":\"m\",\"object\":\"chat.completion.chunk\"}\n\n"
    );
    let last = completion_stream_frame(&complete("hi"), "m").expect("frame");
    assert!(last.contains("\"total_tokens\":5"));
    assert_eq!(
        sse_error_frame("a\"b"),
        "data: {\"error\":{\"message\":\"a\\\"b\"}}\n\n"
    );
    assert_eq!(
        chat_stream_frame(&failed("bad"), "m").expect("frame"),
        "data: {\"error\":{\"message\":\"bad\"}}\n\n"
    );
}

#[test]
fn streams_end_with_a_mark() {
    let mut session = StreamSession::new();
    let step = StreamSession::step(Ok(vec!["a".to_string(), "b".to_string()]));
    assert_eq!(step.frames, vec!["a".to_string(), "b".to_string()]);
    assert!(session.delivered(step.goes_on, true));
    assert!(session.is_served(false));
    assert!(!session.is_served(true));
    let step = StreamSession::step(Err("bad".to_string()));
    assert_eq!(
        step.frames,
        vec!["data: {\"error\":{\"message\":\"bad\"}}\n\n".to_string()]
    );
    assert!(!session.delivered(step.goes_on, true));
    assert!(session.delivered(true, true));
    assert!(!session.is_served(false));
    let mut lost = StreamSession::new();
    assert!(!lost.delivered(true, false));
    assert!(!lost.is_served(false));
    assert_eq!(StreamSession::closing(None), vec!["data: [DONE]\n\n".to_string()]);
    assert_eq!(StreamSession::closing(Some("x")).len(), 2);
}

#[test]
fn response_events_are_numbered() {
    let mut encoder = ResponsesStreamEncoder::new("m".to_string());
    let mut frames = encoder.encode(&chunk("a"), 5, 6).expect("frames");
    frames.extend(encoder.encode(&chunk(""), 5, 6).expect("frames"));
    frames.extend(encoder.encode(&complete("ab"), 5, 6).expect("frames"));
    let events: Vec<Json> = frames
        .iter()
        .map(|frame| {
            let text = frame.strip_prefix("data: ").and_then(|rest| rest.strip_suffix("\n\n"));
            json(text.expect("frame"))
        })
        .collect();
    let kinds: Vec<&str> = events
        .iter()
        .map(|event| event.get("type").and_then(Json::as_str).expect("type"))
        .collect();
    assert_eq!(
        kinds,
        vec![
            "response.created",
            "response.output_item.added",
            "response.content_part.added",
            "response.output_text.delta",
            "response.output_text.done",
            "response.content_part.done",
            "response.output_item.done",
            "response.completed",
        ]
    );
    for (number, event) in events.iter().enumerate() {
        assert_eq!(
            event.get("sequence_number").and_then(Json::as_u64),
            Some(number as u64)
        );
    }
    assert_eq!(
        events[0].get("response").and_then(|r| r.get("created_at")).and_then(Json::as_u64),
        Some(5)
    );
    let last = events[7].get("response").expect("response");
    assert_eq!(last.get("created_at").and_then(Json::as_u64), Some(6));
    assert_eq!(last.get("output_text").and_then(Json::as_str), Some("ab"));
    assert_eq!(
        text_of(last.get("usage").expect("usage")),
        r#"{"cached_tokens":1,"input_tokens":3,"output_tokens":2,"total_tokens":5}"#
    );
    let failure = ResponsesStreamEncoder::new("m".to_string())
        .encode(&failed("bad"), 5, 6)
        .expect("frames");
    assert!(failure[1].contains("response.failed"));
}

#[test]
fn responses_are_answered_whole() {
    let reply = finish_responses(Ok(vec![complete("ab")]), "m", 5);
    assert_eq!(reply.status, 200);
    assert_eq!(reply.body.get("id").and_then(Json::as_str), Some("resp-r"));
    assert_eq!(reply.body.get("status").and_then(Json::as_str), Some("completed"));
    assert_eq!(
        answer(finish_responses(Ok(vec![chunk("a")]), "m", 5)),
        (500, r#"{"error":{"message":"non-stream HTTP responses returned a stream chunk"}}"#.to_string())
    );
    assert_eq!(
        answer(finish_responses(Err(refused(RouterStatusCode::ResourceExhausted)), "m", 5)).0,
        429
    );
}

#[test]
fn servers_tell_of_themselves() {
    assert_eq!(answer(health()), (200, r#"{"healthy":true,"message":"ready"}"#.to_string()));
    assert_eq!(answer(health_generate(RuntimeHealth::Busy)).0, 200);
    assert_eq!(
        answer(health_generate(RuntimeHealth::Poisoned)),
        (503, r#"{"healthy":false,"message":"router runtime mutex poisoned"}"#.to_string())
    );
    let load = RuntimeLoad {
        waiting_queue_depth: 2,
        decode_queue_depth: 3,
        available_cache_pages: 4,
    };
    assert_eq!(
        answer(health_generate(RuntimeHealth::ControlPlane(load))).1,
        r#"{"decode_queue_depth":3,"healthy":true,"message":"PD runtime control plane is ready","waiting_queue_depth":2}"#
    );
    assert_eq!(answer(health_generate(RuntimeHealth::Generated)), answer(health()));
    let probe = health_probe();
    assert_eq!(probe.tokenized.expect("tokens").input_ids, vec![0]);
    assert_eq!(probe.sampling_params.expect("sampling").max_new_tokens, Some(1));
    assert_eq!(answer(health_generate(RuntimeHealth::Failed("x".to_string()))).0, 503);
    assert_eq!(
        answer(list_models(&model())).1,
        r#"{"data":[{"id":"m","object":"model","owned_by":"sglang-rs","root":"/m"}],"object":"list"}"#
    );
    assert_eq!(
        text_of(&model_info_json(&model())),
        r#"{"architectures":["A"],"bos_token_id":-1,"eos_token_ids":[1,2],"has_audio_understanding":false,"has_image_understanding":false,"is_generation":true,"max_context_length":10,"max_req_input_len":9,"model_path":"/m","model_type":"qwen2","pad_token_id":0,"preferred_sampling_params":"","tokenizer_path":"/t","vocab_size":20,"weight_version":"v1"}"#
    );
    assert_eq!(
        answer(loads(load, 9, "0.1")).1,
        r#"{"aggregate":{"total_tokens":5},"loads":[{"available_cache_pages":4,"decode_queue_depth":3,"dp_rank":0,"num_reqs":5,"num_running_reqs":3,"num_waiting_reqs":2,"waiting_queue_depth":2}],"timestamp":9,"version":"0.1"}"#
    );
    assert_eq!(
        answer(legacy_load(load)).1,
        r#"[{"dp_rank":0,"num_pending_tokens":0,"num_reqs":5,"num_tokens":0,"num_waiting_reqs":2}]"#
    );
    assert_eq!(
        answer(outcome_reply(true, "x")).1,
        r#"{"message":"x","success":true}"#
    );
    assert_eq!(flush_cache(false, ""), (400, "Flush cache failed.\n".to_string()));
    assert_eq!(flush_cache(false, "busy"), (400, "busy".to_string()));
    assert!(flush_cache(true, "busy").1.starts_with("Cache flushed.\n"));
    let polled = PolledTransfers {
        completed_batches: 1,
        pending_batches: 2,
        completed_descriptor_checksums: vec![u64::MAX],
        pending_descriptor_checksums: vec![],
    };
    assert_eq!(
        answer(poll_transfers(&polled)).1,
        r#"{"completed_batches":1,"completed_descriptor_checksums":[18446744073709551615],"pending_batches":2,"pending_descriptor_checksums":[]}"#
    );
}

#[test]
fn server_information_holds_what_is_known() {
    let info = HttpServerInfo {
        max_running_requests: Some(4),
        disaggregation_bootstrap_port: Some(99),
        kv_events: Some(HttpKvEventsInfo {
            publisher: "zmq".to_string(),
            endpoint_host: "*".to_string(),
            endpoint_port_base: 5557,
            topic: "kv".to_string(),
            block_size: 16,
            dp_size: 1,
        }),
        kv_cache: Some(HttpKvCacheInfo {
            dtype: "bfloat16".to_string(),
            page_size: 1,
            num_layers: 2,
            kv_heads: 3,
            head_dim: 4,
            kv_tensors_per_token: 5,
            bytes_per_token: 6,
            page_size_bytes: 7,
        }),
        ..HttpServerInfo::default()
    };
    let body = server_info(&model(), &info).body;
    assert_eq!(body.get("max_num_reqs").and_then(Json::as_u64), Some(4));
    assert!(!body.has("max_total_tokens"));
    assert_eq!(
        text_of(body.get("kv_cache").expect("cache")),
        r#"{"bytes_per_token":6,"dtype":"bfloat16","head_dim":4,"kv_heads":3,"kv_tensors_per_token":5,"num_layers":2,"page_size":1,"page_size_bytes":7}"#
    );
    assert_eq!(
        body.get("kv_events").and_then(|events| events.get("topic")).and_then(Json::as_str),
        Some("kv")
    );
    assert_eq!(
        answer(server_info(&model(), &HttpServerInfo::default())).1,
        r#"{"disaggregation_mode":"null","dp_size":1,"enable_metrics":false,"load_balance_method":"round_robin","model_path":"/m","served_model_name":"m","tp_size":1}"#
    );
    let service: HttpRouterService<u8, u8> =
        HttpRouterService::new(Arc::new(Mutex::new(7)), Arc::new(Mutex::new(model())))
            .with_server_info(info)
            .with_disaggregated_requests()
            .with_max_transfer_polls(3)
            .with_engine_info_bootstrap_service(8);
    assert_eq!(*service.runtime().lock().expect("runtime"), 7);
    assert_eq!(service.server_info().max_running_requests, Some(4));
    assert!(service.allows_disaggregated_requests());
    assert_eq!(service.max_transfer_polls(), 3);
    assert_eq!(service.engine_info_bootstrap(), &Some(8));
    assert_eq!(
        HttpServeError::Io("gone".to_string()).to_string(),
        "http server error: gone"
    );
}

#[test]
fn transfer_engines_are_asked_by_rank() {
    assert_eq!(transfer_engine_rank(Some(2)).map_err(answer), Ok(2));
    for rank in [None, Some(-1)] {
        assert_eq!(
            transfer_engine_rank(rank).map_err(answer),
            Err((400, r#"{"error":{"message":"Missing or invalid rank parameter"}}"#.to_string()))
        );
    }
    assert_eq!(
        answer(failed_transfer_engine_info_response(2)),
        (400, r#"{"error":{"message":"Failed to get transfer engine info for rank 2"}}"#.to_string())
    );
    assert_eq!(
        answer(transfer_engine_info_response(2, "s", json(r#"{"a": 1}"#))),
        (200, r#"{"rank":2,"remote_instance_transfer_engine_info":["s",{"a":1}]}"#.to_string())
    );
}

#[test]
fn maintenance_requests_are_read() {
    assert!(matches!(plan_abort(&json(r#"{"abort_all": true, "rid": "x"}"#)), AbortPlan::All));
    for (payload, id) in [
        (r#"{"rid": "x", "request_id": "y"}"#, "x"),
        (r#"{"request_id": "y"}"#, "y"),
        (r#"{"rid": 3, "request_id": "y"}"#, ""),
        ("{}", ""),
    ] {
        match plan_abort(&json(payload)) {
            AbortPlan::One(request_id) => assert_eq!(request_id, id),
            AbortPlan::All => panic!("expected one"),
        }
    }
    let weights = parse_weights_request(&json(r#"{"model_path": "/n", "load_format": null}"#))
        .expect("request");
    assert_eq!(weights.model_path, "/n");
    assert_eq!(weights.load_format, None);
    assert_eq!(
        answer(parse_weights_request(&json(r#"{"model_path": "/n", "load_format": 1}"#)).expect_err("format")),
        (400, r#"{"message":"load_format must be a string when provided","num_paused_requests":0,"success":false}"#.to_string())
    );
    assert_eq!(
        answer(update_weights_bad_request("x")).1,
        r#"{"message":"x","num_paused_requests":0,"success":false}"#
    );
    assert_eq!(
        answer(weights_updated("x")),
        (200, r#"{"message":"x","num_paused_requests":0,"success":true}"#.to_string())
    );
    let version = parse_weight_version_request(&json(r#"{"new_version": "v2"}"#)).expect("request");
    assert!(version.abort_all_requests);
    assert_eq!(
        answer(parse_weight_version_request(&json(r#"{"new_version": ""}"#)).expect_err("empty")),
        (400, r#"{"message":"new_version is required and must be a non-empty string","success":false}"#.to_string())
    );
    assert_eq!(
        answer(weight_version_updated("v2")).1,
        r#"{"message":"Weight version updated to v2","new_version":"v2","success":true}"#
    );
    let by_name = parse_weights_by_name_request(&json(r#"{"name": "w", "truncate_size": 5}"#)).expect("request");
    assert_eq!(by_name.truncate_size, Some(5));
    assert_eq!(
        answer(parse_weights_by_name_request(&json(r#"{"name": "w", "truncate_size": -5}"#)).expect_err("size")).1,
        r#"{"error":{"message":"truncate_size must be a non-negative integer"}}"#
    );
    assert_eq!(
        answer(parse_weights_by_name_request(&json("{}")).expect_err("name")).1,
        r#"{"error":{"message":"name is required and must be a string"}}"#
    );
}

#[test]
fn profiles_are_started_once() {
    assert_eq!(
        answer(start_profile(false, "/p")),
        (200, r#"{"message":"profile started: /p","success":true}"#.to_string())
    );
    assert_eq!(
        answer(start_profile(true, "/p")),
        (409, r#"{"error":{"message":"profile is already running"}}"#.to_string())
    );
    assert_eq!(
        answer(stop_profile(None)),
        (412, r#"{"error":{"message":"profile is not running"}}"#.to_string())
    );
    assert_eq!(
        answer(stop_profile(Some("/p/x.json"))).1,
        r#"{"message":"profile stopped: /p/x.json","success":true}"#
    );
    assert_eq!(profile_output_dir("/p".to_string()).expect("directory"), "/p");
    let error = profile_output_dir(" \t".to_string()).expect_err("blank");
    assert_eq!(
        answer(profile_error_json(&error)),
        (400, r#"{"error":{"message":"profile output_dir cannot be empty or whitespace only"}}"#.to_string())
    );
    assert_eq!(
        answer(profile_error_json(&ProfileError::Internal("x".to_string()))).0,
        500
    );
}

#[test]
fn tokens_and_texts_are_told() {
    assert_eq!(
        answer(tokenized_reply(&vec![1, 2], 10)).1,
        r#"{"count":2,"max_model_len":10,"tokens":[1,2]}"#
    );
    assert_eq!(
        answer(tokenized_batch_reply(&vec![vec![1, 2], vec![]], 0)).1,
        r#"{"count":[2,0],"max_model_len":-1,"tokens":[[1,2],[]]}"#
    );
    assert_eq!(answer(detokenized_reply(Ok("x"))), (200, r#"{"text":"x"}"#.to_string()));
    assert_eq!(
        answer(detokenized_reply(Err("y"))),
        (400, r#"{"error":{"message":"Error decoding tokens: y. Input tokens might be invalid for the model."}}"#.to_string())
    );
    assert_eq!(
        answer(detokenized_batch_reply(&vec!["x".to_string(), "".to_string()])).1,
        r#"{"text":["x",""]}"#
    );
}

#[test]
fn embedding_requests_are_read() {
    let read = |payload: &str| parse_embedding_request(&json(payload), "m");
    let request = read(r#"{"model": "m", "input": [[1, 2], [3]], "dimensions": 4}"#).expect("request");
    assert_eq!(request.dimensions, 4);
    assert!(matches!(&request.inputs[0], TokenInput::TokenIds(ids) if *ids == vec![1, 2]));
    assert_eq!(read(r#"{"model": "m", "input": "x"}"#).expect("request").dimensions, 8);
    for (payload, message) in [
        (r#"{"input": "x"}"#, "missing model"),
        (r#"{"model": "n", "input": "x"}"#, "model n is not served by this worker (m)"),
        (r#"{"model": "m"}"#, "missing input"),
        (r#"{"model": "m", "input": " "}"#, "Input cannot be empty or whitespace only"),
        (r#"{"model": "m", "input": []}"#, "Input cannot be empty"),
        (r#"{"model": "m", "input": ["a", 1]}"#, "input list must contain only strings, integers, or token id arrays"),
        (r#"{"model": "m", "input": [4294967296]}"#, "Token ID at index 0 exceeds u32 range"),
        (r#"{"model": "m", "input": [[]]}"#, "Token ID input cannot be empty"),
        (r#"{"model": "m", "input": [["x"]]}"#, "All items in token ID input must be integers"),
        (r#"{"model": "m", "input": "x", "dimensions": 0}"#, "dimensions must be at least 1"),
        (r#"{"model": "m", "input": "x", "dimensions": 4097}"#, "dimensions must not exceed 4096"),
        (r#"{"model": "m", "input": "x", "dimensions": -1}"#, "dimensions must be a positive integer"),
        (r#"{"model": "m", "input": "x", "encoding_format": "base64"}"#, "encoding_format must be `float`"),
    ] {
        assert_eq!(read(payload).expect_err("invalid"), message);
    }
    assert_eq!(
        parse_classify_request(&json(r#"{"model": "m", "input": ["a", " "]}"#), "m").expect_err("blank"),
        "Input at index 1 cannot be empty or whitespace only"
    );
    assert_eq!(
        parse_classify_request(&json(r#"{"model": "m", "input": [[1]]}"#), "m").expect_err("lists"),
        "input list must contain only strings or integers"
    );
}

#[test]
fn embeddings_follow_the_hash() {
    // The first value that the splitmix generator gives for the state zero.
    assert_eq!(splitmix64(0), 0xe220a8397b1dcdaf);
    let share = embedding_share(0, 0, 8);
    assert_eq!(share.index, (0xe220a8397b1dcdafu64 as usize) % 8);
    assert!(share.negative);
    assert_eq!(share.numerator, ((0xe220a8397b1dcdafu64 >> 16) as u32) % 997);
    let outputs = vec![EmbeddingOutput {
        embedding: vec![0.5f64.to_bits()],
        prompt_tokens: 3,
    }];
    let body = embeddings_response_json("m", &outputs);
    let entry = &body.get("data").and_then(Json::as_array).expect("data")[0];
    assert_eq!(entry.get("index").and_then(Json::as_u64), Some(0));
    assert_eq!(
        text_of(body.get("usage").expect("usage")),
        r#"{"prompt_tokens":3,"total_tokens":3}"#
    );
}

#[test]
fn documents_are_ranked_by_their_scores() {
    let request = parse_rerank_request(
        &json(r#"{"model": "m", "query": [{"text": "q"}, "r"], "instruct": "i", "documents": ["a", "b", "c"], "top_n": 2}"#),
        "m",
    )
    .expect("request");
    assert_eq!(request.query, "i\nq\nr");
    assert_eq!(request.top_k, Some(2));
    assert!(request.return_documents);
    let scores = vec![0.25f64.to_bits(), 0.5f64.to_bits(), 0.25f64.to_bits()];
    let mut results = rank_documents(&request.documents, &scores);
    let order: Vec<usize> = results.iter().map(|result| result.index).collect();
    assert_eq!(order, vec![1, 0, 2]);
    truncate_rerank_results(request.top_k, &mut results);
    assert_eq!(results.len(), 2);
    let body = rerank_results_to_json(false, &results);
    assert!(!body.as_array().expect("array")[0].has("document"));
    assert_eq!(overlap(&vec![1, 2, 2, 3], &vec![3, 4, 2]), (2, 4));
    assert_eq!(shared_tokens(&vec![1, 2, 2, 3], &vec![3, 4, 2]), Some((2, 4)));
    assert_eq!(shared_tokens(&vec![1], &vec![2]), Some((0, 2)));
    assert_eq!(shared_tokens(&vec![], &vec![2]), None);
    assert_eq!(shared_tokens(&vec![1], &vec![]), None);
    for (payload, message) in [
        (r#"{"model": "m"}"#, "missing query"),
        (r#"{"model": "m", "query": " ", "documents": ["a"]}"#, "Query cannot be empty or whitespace only"),
        (r#"{"model": "m", "query": "q"}"#, "documents must be an array"),
        (r#"{"model": "m", "query": "q", "documents": []}"#, "Documents cannot be empty"),
        (r#"{"model": "m", "query": "q", "documents": [" "]}"#, "Each document cannot be empty or whitespace only"),
        (r#"{"model": "m", "query": [{"type": "image"}], "documents": []}"#, "query only supports text content in the Rust rerank worker"),
        (r#"{"model": "m", "query": [], "documents": []}"#, "query must include at least one text content part"),
        (r#"{"model": "m", "query": "q", "documents": ["a"], "top_k": 0}"#, "top_k must be at least 1"),
    ] {
        assert_eq!(parse_rerank_request(&json(payload), "m").expect_err("invalid"), message);
    }
}

#[test]
fn scores_are_asked_and_told() {
    let request = parse_score_request(
        &json(r#"{"model": "m", "items": [[1], [2, 3]], "label_token_ids": [4], "item_first": true}"#),
        "m",
    )
    .expect("request");
    assert!(matches!(&request.query, TokenInput::TokenIds(ids) if ids.is_empty()));
    assert_eq!(request.label_token_ids, Some(vec![4]));
    assert!(request.item_first);
    assert_eq!(compose_score_prompt(&vec![1], &vec![2, 3], true), vec![2, 3, 1]);
    assert_eq!(compose_score_prompt(&vec![1], &vec![2, 3], false), vec![1, 2, 3]);
    for (payload, message) in [
        (r#"{"model": "m"}"#, "items must be provided"),
        (r#"{"model": "m", "items": [1]}"#, "items must be a string, list of strings, or token ID batches"),
        (r#"{"model": "m", "items": [[-1]]}"#, "items[0] must contain only token ID integers"),
        (r#"{"model": "m", "items": "x", "label_token_ids": []}"#, "label_token_ids cannot be empty"),
        (r#"{"model": "m", "items": "x", "query": 1}"#, "query must be a string or token ID array"),
        (r#"{"model": "m", "items": "x", "apply_softmax": 1}"#, "apply_softmax must be a boolean"),
        (r#"{"model": "m", "items": "x", "query_embed_overrides": 1}"#, "embedding overrides are not supported by the Rust score worker"),
        (r#"{"model": "m", "items": "x", "return_pooled_hidden_states": true}"#, "return_pooled_hidden_states is not supported by the Rust score worker"),
    ] {
        assert_eq!(parse_score_request(&json(payload), "m").expect_err("invalid"), message);
    }
    let body = score_response_json("m", &vec![vec![1.0f64.to_bits()]], 3);
    assert_eq!(body.get("object").and_then(Json::as_str), Some("scoring"));
    assert_eq!(
        text_of(body.get("usage").expect("usage")),
        r#"{"completion_tokens":0,"prompt_tokens":3,"prompt_tokens_details":null,"reasoning_tokens":0,"total_tokens":3}"#
    );
}

#[test]
fn classes_are_predicted() {
    let probs = |values: [f64; 3]| values.iter().map(|value| value.to_bits()).collect::<Vec<u64>>();
    assert_eq!(predicted_class(&probs([0.2, 0.6, 0.2])), 1);
    assert_eq!(predicted_class(&probs([0.4, 0.2, 0.4])), 0);
    assert_eq!(predicted_class(&vec![]), 0);
    let outputs = vec![ClassifyOutput {
        probs: probs([0.2, 0.2, 0.6]),
        prompt_tokens: 2,
    }];
    let body = classify_response_json("m", &outputs, 12, 34);
    assert_eq!(body.get("id").and_then(Json::as_str), Some("classify-12"));
    assert_eq!(body.get("created").and_then(Json::as_u64), Some(34));
    let entry = &body.get("data").and_then(Json::as_array).expect("data")[0];
    assert_eq!(entry.get("label").and_then(Json::as_str), Some("LABEL_2"));
    assert_eq!(entry.get("num_classes").and_then(Json::as_u64), Some(3));
}

#[test]
fn scores_without_labels_follow_their_rule() {
    let rule = |payload: &str, query: &[u32], item: &[u32]| {
        let request = parse_score_request(&json(payload), "m").expect("request");
        score_rule(&request, &query.to_vec(), &item.to_vec())
    };
    let plain = r#"{"model": "m", "items": "x"}"#;
    assert_eq!(rule(plain, &[1], &[2]), ScoreRule::Likeness);
    assert_eq!(rule(plain, &[], &[2]), ScoreRule::Zero);
    assert_eq!(rule(plain, &[1], &[]), ScoreRule::Zero);
    let softmax = r#"{"model": "m", "items": "x", "apply_softmax": true}"#;
    assert_eq!(rule(softmax, &[], &[2]), ScoreRule::One);
    let labels = r#"{"model": "m", "items": "x", "apply_softmax": true, "label_token_ids": [4]}"#;
    assert_eq!(rule(labels, &[], &[]), ScoreRule::Labels { apply_softmax: true });
}
