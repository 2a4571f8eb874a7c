use sglang_srt::http_inputs::{
    chat_template_input_from_payload, http_responses_payload_to_router_request,
    parse_detokenize_tokens, parse_tokenize_prompt, profile_output_dir_from_body,
    responses_input_to_text, DetokenizeTokens, TokenizePrompt,
};
use sglang_srt::http_requests::{
    http_chat_payload_to_router_request, http_chat_payload_to_router_request_with_headers,
    http_completion_payload_to_router_request,
    http_completion_payload_to_router_request_with_headers,
    http_generate_payload_to_router_request, http_generate_payload_to_router_request_with_headers,
    HttpChatRequest, HttpCompletionRequest, HttpGenerateRequest,
};
use sglang_srt::json::{Json, JsonNumber};
use sglang_srt::json_text::parse_json;

fn json(text: &str) -> Json {
    parse_json(text.as_bytes()).expect("document")
}

fn number(value: Option<JsonNumber>) -> Option<f32> {
    value.map(|number| match number {
        JsonNumber::Unsigned(n) => n as f32,
        JsonNumber::Negative(n) => n as f32,
        JsonNumber::Float(bits) => f64::from_bits(bits) as f32,
    })
}

#[test]
fn generate_payload_accepts_routed_dp_rank_for_text_request() {
    let request = http_generate_payload_to_router_request(&json(
        r#"{"text": "hello", "routed_dp_rank": 3}"#,
    ))
    .expect("generate payload should parse");

    match request {
        HttpGenerateRequest::Text(request) => {
            assert_eq!(request.data_parallel_rank, 3);
        }
        _ => panic!("expected text request"),
    }
}

#[test]
fn token_batch_payload_accepts_routed_dp_rank_array() {
    let request = http_generate_payload_to_router_request(&json(
        r#"{"input_ids": [[1, 2], [3, 4]], "routed_dp_rank": [1, 2]}"#,
    ))
    .expect("batch token payload should parse");

    match request {
        HttpGenerateRequest::BatchTokenized(requests) => {
            assert_eq!(
                requests
                    .iter()
                    .map(|request| request.data_parallel_rank)
                    .collect::<Vec<_>>(),
                vec![1, 2]
            );
        }
        _ => panic!("expected token batch request"),
    }
}

#[test]
fn chat_payload_prefers_routed_dp_rank_over_deprecated_data_parallel_rank() {
    let request = http_chat_payload_to_router_request(
        &json(
            r#"{
                "model": "tiny",
                "messages": [{"role": "user", "content": "hello"}],
                "data_parallel_rank": 1,
                "routed_dp_rank": 4
            }"#,
        ),
        "tiny",
        "hello".to_string(),
    )
    .expect("chat payload should parse");

    match request {
        HttpChatRequest::Single(request) => {
            assert_eq!(request.data_parallel_rank, 4);
        }
        _ => panic!("expected single chat request"),
    }
}

#[test]
fn chat_payload_maps_openai_sampling_parameters() {
    let request = http_chat_payload_to_router_request(
        &json(
            r#"{
                "model": "tiny",
                "messages": [{"role": "user", "content": "hello"}],
                "max_tokens": 3,
                "max_completion_tokens": 5,
                "temperature": 0.7,
                "top_p": 0.8,
                "top_k": 20,
                "min_p": 0.05,
                "frequency_penalty": 0.2,
                "presence_penalty": -0.3,
                "repetition_penalty": 1.1,
                "ignore_eos": true,
                "stop_token_ids": [1, 2]
            }"#,
        ),
        "tiny",
        "rendered prompt".to_string(),
    )
    .expect("chat payload should parse");

    let HttpChatRequest::Single(request) = request else {
        panic!("expected single chat request");
    };
    assert_eq!(request.text, "rendered prompt");
    let sampling = request
        .sampling_params
        .expect("sampling params should be populated");
    assert_eq!(sampling.max_new_tokens, Some(5));
    assert_eq!(number(sampling.temperature), Some(0.7));
    assert_eq!(number(sampling.top_p), Some(0.8));
    assert_eq!(sampling.top_k, Some(20));
    assert_eq!(number(sampling.min_p), Some(0.05));
    assert_eq!(number(sampling.frequency_penalty), Some(0.2));
    assert_eq!(number(sampling.presence_penalty), Some(-0.3));
    assert_eq!(number(sampling.repetition_penalty), Some(1.1));
    assert_eq!(sampling.ignore_eos, Some(true));
    assert_eq!(sampling.stop_token_ids, vec![1, 2]);
}

#[test]
fn completion_payload_accepts_routed_dp_rank() {
    let request = http_completion_payload_to_router_request(
        &json(r#"{"model": "tiny", "prompt": "hello", "routed_dp_rank": 5}"#),
        "tiny",
    )
    .expect("completion payload should parse");

    match request {
        HttpCompletionRequest::Single(request) => {
            assert_eq!(request.data_parallel_rank, 5);
        }
        _ => panic!("expected single completion request"),
    }
}

#[test]
fn chat_payload_prefers_routed_dp_rank_header_over_body() {
    let header = b"6".to_vec();
    let request = http_chat_payload_to_router_request_with_headers(
        json(
            r#"{
                "model": "tiny",
                "messages": [{"role": "user", "content": "hello"}],
                "routed_dp_rank": 2
            }"#,
        ),
        "tiny",
        Some(&header),
        "hello".to_string(),
    )
    .expect("chat payload should parse");

    match request {
        HttpChatRequest::Single(request) => {
            assert_eq!(request.data_parallel_rank, 6);
        }
        _ => panic!("expected single chat request"),
    }
}

#[test]
fn generate_batch_payload_uses_routed_dp_rank_header_for_each_item() {
    let header = b"7".to_vec();
    let request = http_generate_payload_to_router_request_with_headers(
        json(r#"{"text": ["hello", "there"], "routed_dp_rank": [1, 2]}"#),
        Some(&header),
    )
    .expect("batch generate payload should parse");

    match request {
        HttpGenerateRequest::BatchText(requests) => {
            assert_eq!(
                requests
                    .iter()
                    .map(|request| request.data_parallel_rank)
                    .collect::<Vec<_>>(),
                vec![7, 7]
            );
        }
        _ => panic!("expected text batch request"),
    }
}

#[test]
fn completion_payload_rejects_invalid_routed_dp_rank_header() {
    let header = b"not-a-rank".to_vec();
    let result = http_completion_payload_to_router_request_with_headers(
        json(r#"{"model": "tiny", "prompt": "hello"}"#),
        "tiny",
        Some(&header),
    );
    let error = match result {
        Ok(_) => panic!("invalid header should reject request"),
        Err(error) => error,
    };

    assert_eq!(
        error,
        "Invalid X-Data-Parallel-Rank header: must be an integer, got 'not-a-rank'"
    );
}

#[test]
fn without_a_header_the_body_counts() {
    let request = http_generate_payload_to_router_request_with_headers(
        json(r#"{"text": "hello", "routed_dp_rank": 2}"#),
        None,
    )
    .expect("payload");
    match request {
        HttpGenerateRequest::Text(request) => {
            assert_eq!(request.data_parallel_rank, 2);
            assert_eq!(request.text, "hello");
            assert!(!request.stream);
        }
        _ => panic!("expected text request"),
    }
}

#[test]
fn completion_payload_needs_the_served_model() {
    assert!(http_completion_payload_to_router_request(
        &json(r#"{"model": "other", "prompt": "hello"}"#),
        "tiny"
    )
    .is_err());
    match http_completion_payload_to_router_request(
        &json(r#"{"model": "tiny", "prompt": ["a", "b"]}"#),
        "tiny",
    ) {
        Ok(HttpCompletionRequest::Batch(requests)) => {
            assert_eq!(requests.len(), 2);
            assert_eq!(requests[1].text, "b");
        }
        _ => panic!("expected batch completion request"),
    }
}

#[test]
fn chat_template_input_keeps_messages_in_order() {
    let input = chat_template_input_from_payload(&json(
        r#"{"messages": [{"role": "system", "content": "be brief"}, {"role": "user", "content": "hi"}]}"#,
    ))
    .expect("chat input");
    assert_eq!(input.messages.len(), 2);
    assert_eq!(input.messages[0].get("role").and_then(Json::as_str), Some("system"));
    assert_eq!(input.messages[1].get("content").and_then(Json::as_str), Some("hi"));
    assert!(input.tools.is_none());
    assert!(chat_template_input_from_payload(&json(r#"{}"#)).is_err());
}

#[test]
fn responses_input_is_text_or_items() {
    assert_eq!(
        responses_input_to_text(&json(r#"{"input": "hello"}"#)).expect("text"),
        "hello"
    );
    let request = http_responses_payload_to_router_request(
        &json(r#"{"model": "tiny", "input": "hello", "max_output_tokens": 4}"#),
        "tiny",
    )
    .expect("responses request");
    assert_eq!(request.model, "tiny");
    assert_eq!(request.request.text, "hello");
    assert!(responses_input_to_text(&json(r#"{}"#)).is_err());
}

#[test]
fn tokenize_and_detokenize_take_one_or_many() {
    assert!(matches!(
        parse_tokenize_prompt(&json(r#"{"prompt": "a"}"#)),
        Ok(TokenizePrompt::Single(text)) if text == "a"
    ));
    assert!(matches!(
        parse_tokenize_prompt(&json(r#"{"prompt": ["a", "b"]}"#)),
        Ok(TokenizePrompt::Batch(texts)) if texts == ["a", "b"]
    ));
    assert!(matches!(
        parse_detokenize_tokens(&json(r#"{"tokens": [1, 2]}"#)),
        Ok(DetokenizeTokens::Single(tokens)) if tokens == [1, 2]
    ));
    assert!(matches!(
        parse_detokenize_tokens(&json(r#"{"tokens": [[1], [2, 3]]}"#)),
        Ok(DetokenizeTokens::Batch(batches)) if batches == [vec![1], vec![2, 3]]
    ));
    assert!(parse_detokenize_tokens(&json(r#"{"tokens": [-1]}"#)).is_err());
}

#[test]
fn profile_body_may_name_a_directory() {
    assert_eq!(
        profile_output_dir_from_body(br#"{"output_dir": "/tmp/p"}"#).expect("body"),
        Some("/tmp/p".to_string())
    );
    assert!(profile_output_dir_from_body(b"not json").is_err());
}
