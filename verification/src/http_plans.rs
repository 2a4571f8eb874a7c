//! What the generating endpoints do with a request, and what they answer in the end.
use vstd::prelude::*;
use vstd::string::*;

use crate::http_answers::{
    batch_failure, chat_answer, chat_batch_answer, completion_answer, completion_batch_answer,
    completion_sum, fits, generate_answer, generate_batch_answer,
    http_chat_batch_response_from_router_responses, http_chat_response_from_router_responses,
    http_completion_batch_response_from_router_responses,
    http_completion_response_from_router_responses, http_generate_batch_response,
    http_generate_response, prompt_sum, usage_fits,
};
use crate::http_inputs::{
    ask_meeting, ask_streams, http_responses_payload_to_router_request_with_headers,
    responses_ask_in, text_meeting, text_streams,
};
use crate::http_replies::{
    bad_request_json, error_answer, error_reply, response_total_fits, router_runtime_error_json,
    runtime_error_answer, runtime_error_message, Answered, Reply,
};
use crate::http_requests::{
    chat_ask_in, completion_ask_in, generate_ask_in, header_bytes,
    http_chat_payload_to_router_request_with_headers,
    http_completion_payload_to_router_request_with_headers,
    http_generate_payload_to_router_request_with_headers, payload_with_header, GenerateAsk,
    HttpChatRequest, HttpCompletionRequest, HttpGenerateRequest, HttpResponsesRequest, TextAsk,
    TokenAsk,
};
use crate::json::{Json, JsonView};
use crate::router::{
    RouterGenerateRequest, RouterGenerateResponse, RouterRuntimeError, RouterTextGenerateRequest,
    TextRequest, TokenRequest,
};

verus! {

/// What `/generate` does with a request.
#[derive(Debug)]
pub enum GeneratePlan {
    /// Answer at once.
    Reply(Reply),
    /// Stream the answer to a text.
    StreamText(RouterTextGenerateRequest),
    /// Stream the answer to tokens.
    StreamTokens(RouterGenerateRequest),
    /// Generate, then answer.
    Run(HttpGenerateRequest),
}

/// What `/generate` does with a request.
pub enum GenerateStep {
    Reply(Answered),
    StreamText(TextRequest),
    StreamTokens(TokenRequest),
    Run(GenerateAsk),
}

impl View for GeneratePlan {
    type V = GenerateStep;

    open spec fn view(&self) -> GenerateStep {
        match *self {
            GeneratePlan::Reply(reply) => GenerateStep::Reply(reply@),
            GeneratePlan::StreamText(request) => GenerateStep::StreamText(request@),
            GeneratePlan::StreamTokens(request) => GenerateStep::StreamTokens(request@),
            GeneratePlan::Run(request) => GenerateStep::Run(request@),
        }
    }
}

/// What `/generate` does with what a payload asks for.
pub open spec fn generate_step(ask: Result<GenerateAsk, Seq<char>>, allow_disaggregated: bool) -> GenerateStep {
    match ask {
        Err(message) => GenerateStep::Reply(error_answer(400, message)),
        Ok(wanted) => if ask_meeting(wanted) is Some && !allow_disaggregated {
            GenerateStep::Reply(
                error_answer(
                    501,
                    "disaggregated HTTP generate requires a PD transfer-enabled runtime"@,
                ),
            )
        } else if ask_streams(wanted) {
            match wanted {
                GenerateAsk::Text(TextAsk::Single(request)) => GenerateStep::StreamText(request),
                GenerateAsk::Tokens(TokenAsk::Single(request)) => GenerateStep::StreamTokens(
                    request,
                ),
                _ => GenerateStep::Reply(
                    error_answer(400, "streaming batched /generate is not supported yet"@),
                ),
            }
        } else {
            GenerateStep::Run(wanted)
        },
    }
}

/// What a payload with a header asks for.
pub open spec fn merged_ask<T>(
    payload: JsonView,
    header: Option<Seq<u8>>,
    read: spec_fn(JsonView) -> Result<T, Seq<char>>,
) -> Result<T, Seq<char>> {
    match payload_with_header(payload, header) {
        Err(message) => Err(message),
        Ok(merged) => read(merged),
    }
}

/// What `/generate` does with a request.
pub fn plan_generate(payload: Json, header: Option<&Vec<u8>>, allow_disaggregated: bool) -> (plan:
    GeneratePlan)
    ensures
        plan@ == generate_step(
            merged_ask(
                payload@,
                header_bytes(header),
                |merged: JsonView| generate_ask_in(merged),
            ),
            allow_disaggregated,
        ),
{
    let request = match http_generate_payload_to_router_request_with_headers(payload, header) {
        Ok(request) => request,
        Err(message) => {
            return GeneratePlan::Reply(bad_request_json(message.as_str()));
        },
    };
    if request.disaggregated_params().is_some() && !allow_disaggregated {
        return GeneratePlan::Reply(
            error_reply(
                501,
                "disaggregated HTTP generate requires a PD transfer-enabled runtime",
            ),
        );
    }
    if request.stream() {
        return match request {
            HttpGenerateRequest::Text(request) => GeneratePlan::StreamText(request),
            HttpGenerateRequest::Tokenized(request) => GeneratePlan::StreamTokens(request),
            _ => GeneratePlan::Reply(
                bad_request_json("streaming batched /generate is not supported yet"),
            ),
        };
    }
    GeneratePlan::Run(request)
}

/// What was generated: the answers to one request, or to each of a batch.
#[derive(Debug)]
pub enum Generated {
    Single(Vec<RouterGenerateResponse>),
    Batch(Vec<Vec<RouterGenerateResponse>>),
}

/// What `/generate` answers in the end.
pub fn finish_generate(generated: Result<Generated, RouterRuntimeError>) -> (reply: Reply)
    ensures
        reply@ == (match generated {
            Ok(Generated::Single(responses)) => generate_answer(responses@),
            Ok(Generated::Batch(batch)) => generate_batch_answer(batch@),
            Err(error) => runtime_error_answer(error),
        }),
{
    match generated {
        Ok(Generated::Single(responses)) => http_generate_response(responses),
        Ok(Generated::Batch(batch)) => http_generate_batch_response(batch),
        Err(error) => router_runtime_error_json(&error),
    }
}

/// What a text endpoint does with a request.
pub enum TextStep {
    Reply(Answered),
    Stream(TextRequest),
    Run(TextAsk),
}

/// What a text endpoint does with what a payload asks for.
pub open spec fn text_step(
    ask: Result<TextAsk, Seq<char>>,
    allow_disaggregated: bool,
    disaggregated_message: Seq<char>,
    batch_message: Seq<char>,
) -> TextStep {
    match ask {
        Err(message) => TextStep::Reply(error_answer(400, message)),
        Ok(wanted) => if text_meeting(wanted) is Some && !allow_disaggregated {
            TextStep::Reply(error_answer(501, disaggregated_message))
        } else if text_streams(wanted) {
            match wanted {
                TextAsk::Single(request) => TextStep::Stream(request),
                TextAsk::Batch(_) => TextStep::Reply(error_answer(400, batch_message)),
            }
        } else {
            TextStep::Run(wanted)
        },
    }
}

/// What the chat endpoint does with a request.
#[derive(Debug)]
pub enum ChatPlan {
    /// Answer at once.
    Reply(Reply),
    /// Stream the answer.
    Stream(Box<RouterTextGenerateRequest>),
    /// Generate, then answer.
    Run(HttpChatRequest),
}

impl View for ChatPlan {
    type V = TextStep;

    open spec fn view(&self) -> TextStep {
        match *self {
            ChatPlan::Reply(reply) => TextStep::Reply(reply@),
            ChatPlan::Stream(request) => TextStep::Stream(request@),
            ChatPlan::Run(request) => TextStep::Run(request@),
        }
    }
}

/// What the chat endpoint does with a request, once its messages are rendered to a prompt.
pub fn plan_chat(
    payload: Json,
    served_model_name: &str,
    header: Option<&Vec<u8>>,
    prompt: String,
    allow_disaggregated: bool,
) -> (plan: ChatPlan)
    ensures
        plan@ == text_step(
            merged_ask(
                payload@,
                header_bytes(header),
                |merged: JsonView| chat_ask_in(merged, served_model_name@, prompt@),
            ),
            allow_disaggregated,
            "disaggregated HTTP chat completions require a PD transfer-enabled runtime"@,
            "streaming batched /v1/chat/completions is not supported yet"@,
        ),
{
    let request = match http_chat_payload_to_router_request_with_headers(
        payload,
        served_model_name,
        header,
        prompt,
    ) {
        Ok(request) => request,
        Err(message) => {
            return ChatPlan::Reply(bad_request_json(message.as_str()));
        },
    };
    if request.disaggregated_params().is_some() && !allow_disaggregated {
        return ChatPlan::Reply(
            error_reply(
                501,
                "disaggregated HTTP chat completions require a PD transfer-enabled runtime",
            ),
        );
    }
    if request.stream() {
        return match request {
            HttpChatRequest::Single(request) => ChatPlan::Stream(request),
            HttpChatRequest::Batch(_) => ChatPlan::Reply(
                bad_request_json("streaming batched /v1/chat/completions is not supported yet"),
            ),
        };
    }
    ChatPlan::Run(request)
}

/// What the chat endpoint answers in the end.
pub fn finish_chat(generated: Result<Generated, RouterRuntimeError>, model: &str) -> (reply: Reply)
    requires
        generated matches Ok(Generated::Batch(batch)) ==> usage_fits(batch@),
    ensures
        reply@ == (match generated {
            Ok(Generated::Single(responses)) => chat_answer(responses@, model@),
            Ok(Generated::Batch(batch)) => chat_batch_answer(batch@, model@),
            Err(error) => error_answer(500, runtime_error_message(error)),
        }),
{
    match generated {
        Ok(Generated::Single(responses)) => http_chat_response_from_router_responses(
            &responses,
            model,
        ),
        Ok(Generated::Batch(batch)) => http_chat_batch_response_from_router_responses(
            &batch,
            model,
        ),
        Err(RouterRuntimeError::Protocol { message, .. }) => error_reply(500, message.as_str()),
        Err(RouterRuntimeError::Runtime { message }) => error_reply(500, message.as_str()),
    }
}

/// What the completion endpoint does with a request.
#[derive(Debug)]
pub enum CompletionPlan {
    /// Answer at once.
    Reply(Reply),
    /// Stream the answer.
    Stream(Box<RouterTextGenerateRequest>),
    /// Generate, then answer.
    Run(HttpCompletionRequest),
}

impl View for CompletionPlan {
    type V = TextStep;

    open spec fn view(&self) -> TextStep {
        match *self {
            CompletionPlan::Reply(reply) => TextStep::Reply(reply@),
            CompletionPlan::Stream(request) => TextStep::Stream(request@),
            CompletionPlan::Run(request) => TextStep::Run(request@),
        }
    }
}

/// What the completion endpoint does with a request.
pub fn plan_completion(
    payload: Json,
    served_model_name: &str,
    header: Option<&Vec<u8>>,
    allow_disaggregated: bool,
) -> (plan: CompletionPlan)
    ensures
        plan@ == text_step(
            merged_ask(
                payload@,
                header_bytes(header),
                |merged: JsonView| completion_ask_in(merged, served_model_name@),
            ),
            allow_disaggregated,
            "disaggregated HTTP completions require a PD transfer-enabled runtime"@,
            "streaming batched /v1/completions is not supported yet"@,
        ),
{
    let request = match http_completion_payload_to_router_request_with_headers(
        payload,
        served_model_name,
        header,
    ) {
        Ok(request) => request,
        Err(message) => {
            return CompletionPlan::Reply(bad_request_json(message.as_str()));
        },
    };
    if request.disaggregated_params().is_some() && !allow_disaggregated {
        return CompletionPlan::Reply(
            error_reply(
                501,
                "disaggregated HTTP completions require a PD transfer-enabled runtime",
            ),
        );
    }
    if request.stream() {
        return match request {
            HttpCompletionRequest::Single(request) => CompletionPlan::Stream(request),
            HttpCompletionRequest::Batch(_) => CompletionPlan::Reply(
                bad_request_json("streaming batched /v1/completions is not supported yet"),
            ),
        };
    }
    CompletionPlan::Run(request)
}

/// Whether the token sums of completions fit in 32 bits.
pub open spec fn completions_fit(generated: Result<Generated, RouterRuntimeError>) -> bool {
    match generated {
        Ok(Generated::Single(responses)) => responses@.len() > 0 ==> response_total_fits(
            responses@.last(),
        ),
        Ok(Generated::Batch(batch)) => usage_fits(batch@) && (batch_failure(
            batch@,
            Seq::empty(),
        ) is None ==> fits(prompt_sum(batch@) + completion_sum(batch@))),
        Err(_) => true,
    }
}

/// What the completion endpoint answers in the end.
pub fn finish_completion(generated: Result<Generated, RouterRuntimeError>, model: &str) -> (reply:
    Reply)
    requires
        completions_fit(generated),
    ensures
        reply@ == (match generated {
            Ok(Generated::Single(responses)) => completion_answer(responses@, model@),
            Ok(Generated::Batch(batch)) => completion_batch_answer(batch@, model@),
            Err(error) => error_answer(500, runtime_error_message(error)),
        }),
{
    match generated {
        Ok(Generated::Single(responses)) => http_completion_response_from_router_responses(
            &responses,
            model,
        ),
        Ok(Generated::Batch(batch)) => http_completion_batch_response_from_router_responses(
            &batch,
            model,
        ),
        Err(RouterRuntimeError::Protocol { message, .. }) => error_reply(500, message.as_str()),
        Err(RouterRuntimeError::Runtime { message }) => error_reply(500, message.as_str()),
    }
}

/// What the responses endpoint does with a request.
#[derive(Debug)]
pub enum ResponsesPlan {
    /// Answer at once.
    Reply(Reply),
    /// Stream the answer.
    Stream(HttpResponsesRequest),
    /// Generate, then answer.
    Run(HttpResponsesRequest),
}

/// What the responses endpoint does with what a payload asks for.
pub open spec fn responses_step(ask: Result<TextRequest, Seq<char>>, allow_disaggregated: bool) -> TextStep {
    match ask {
        Err(message) => TextStep::Reply(error_answer(400, message)),
        Ok(request) => if request.meeting is Some && !allow_disaggregated {
            TextStep::Reply(
                error_answer(
                    501,
                    "disaggregated HTTP responses require a PD transfer-enabled runtime"@,
                ),
            )
        } else if request.stream {
            TextStep::Stream(request)
        } else {
            TextStep::Run(TextAsk::Single(request))
        },
    }
}

impl View for ResponsesPlan {
    type V = TextStep;

    open spec fn view(&self) -> TextStep {
        match *self {
            ResponsesPlan::Reply(reply) => TextStep::Reply(reply@),
            ResponsesPlan::Stream(request) => TextStep::Stream(request.request@),
            ResponsesPlan::Run(request) => TextStep::Run(TextAsk::Single(request.request@)),
        }
    }
}

/// What the responses endpoint does with a request.
pub fn plan_responses(
    payload: Json,
    served_model_name: &str,
    header: Option<&Vec<u8>>,
    allow_disaggregated: bool,
) -> (plan: ResponsesPlan)
    ensures
        plan@ == responses_step(
            merged_ask(
                payload@,
                header_bytes(header),
                |merged: JsonView| responses_ask_in(merged, served_model_name@),
            ),
            allow_disaggregated,
        ),
        plan matches ResponsesPlan::Stream(request) ==> request.model@ == served_model_name@,
        plan matches ResponsesPlan::Run(request) ==> request.model@ == served_model_name@,
{
    let request = match http_responses_payload_to_router_request_with_headers(
        payload,
        served_model_name,
        header,
    ) {
        Ok(request) => request,
        Err(message) => {
            return ResponsesPlan::Reply(bad_request_json(message.as_str()));
        },
    };
    if request.request.disaggregated_params.is_some() && !allow_disaggregated {
        return ResponsesPlan::Reply(
            error_reply(
                501,
                "disaggregated HTTP responses require a PD transfer-enabled runtime",
            ),
        );
    }
    if request.request.stream {
        return ResponsesPlan::Stream(request);
    }
    ResponsesPlan::Run(request)
}

/// Whether a runtime polls for transfers, and how often at most.
pub fn transfer_polls(max_transfer_polls: usize) -> (polls: Option<usize>)
    ensures
        polls == (if max_transfer_polls == 0 {
            None::<usize>
        } else {
            Some(max_transfer_polls)
        }),
{
    if max_transfer_polls == 0 {
        None
    } else {
        Some(max_transfer_polls)
    }
}

/// A data parallel rank in the header counts before one in the body.
pub proof fn header_rank_counts_before_body(payload: JsonView, header: Seq<u8>)
    requires
        payload is Object,
        crate::http_requests::header_rank(Some(header)) matches Ok(Some(_)),
    ensures
        payload_with_header(payload, Some(header)) is Ok,
        crate::payload::rank_in(payload_with_header(payload, Some(header))->Ok_0) == Ok::<
            Option<i32>,
            Seq<char>,
        >(crate::http_requests::header_rank(Some(header))->Ok_0),
        forall|n: nat| #[trigger]
            crate::payload::ranks_in(payload_with_header(payload, Some(header))->Ok_0, n) == Ok::<
                Seq<i32>,
                Seq<char>,
            >(
                crate::payload::repeated(
                    crate::http_requests::header_rank(Some(header))->Ok_0->0,
                    n,
                ),
            ),
{
}

} // verus!
