//! The answers of the HTTP endpoints that generate text.
use vstd::prelude::*;
use vstd::string::*;

use crate::json::{empty_object, float_free, integer_view, views, Json, JsonNumber, JsonView};
use crate::json_text::{display_json, displayed, render_json, rendered};
use crate::router::{
    RouterGenerateComplete, RouterGenerateResponse, RouterGenerateResponseBody, RouterRuntimeError,
    RouterStatusCode,
};
use crate::text::{cat2, cat3, chars_of};

verus! {

/// An answer to an HTTP request.
#[derive(Debug)]
pub struct Reply {
    pub status: u16,
    pub body: Json,
}

/// What a [`Reply`] says.
pub struct Answered {
    pub status: nat,
    pub body: JsonView,
}

impl View for Reply {
    type V = Answered;

    open spec fn view(&self) -> Answered {
        Answered { status: self.status as nat, body: self.body@ }
    }
}

/// The JSON number `n`.
pub open spec fn integer_of(n: i32) -> JsonView {
    integer_view(n as int)
}

/// An object that tells of an error.
pub open spec fn error_body(message: Seq<char>) -> JsonView {
    empty_object().with("error"@, empty_object().with("message"@, JsonView::Text(message)))
}

/// An answer that tells of an error.
pub open spec fn error_answer(status: nat, message: Seq<char>) -> Answered {
    Answered { status, body: error_body(message) }
}

/// An object that tells of an error.
pub fn error_json(message: &str) -> (json: Json)
    ensures
        json@ == error_body(message@),
        float_free(json),
{
    Json::object().with("error", Json::object().with("message", Json::text(message)))
}

/// An answer that tells of an error.
pub fn error_reply(status: u16, message: &str) -> (reply: Reply)
    ensures
        reply@ == error_answer(status as nat, message@),
{
    Reply { status, body: error_json(message) }
}

/// An answer that tells of a bad request.
pub fn bad_request_json(message: &str) -> (reply: Reply)
    ensures
        reply@ == error_answer(400, message@),
{
    error_reply(400, message)
}

/// An answer that tells of a failure of the server.
pub fn internal_error_json(message: &str) -> (reply: Reply)
    ensures
        reply@ == error_answer(500, message@),
{
    error_reply(500, message)
}

/// The HTTP status of a status.
pub open spec fn http_status_of(status_code: RouterStatusCode) -> u16 {
    match status_code {
        RouterStatusCode::InvalidArgument => 400,
        RouterStatusCode::ResourceExhausted => 429,
        RouterStatusCode::FailedPrecondition => 412,
    }
}

/// The HTTP status of a status.
pub fn router_status_code_to_http_status(status_code: RouterStatusCode) -> (status: u16)
    ensures
        status == http_status_of(status_code),
{
    match status_code {
        RouterStatusCode::InvalidArgument => 400,
        RouterStatusCode::ResourceExhausted => 429,
        RouterStatusCode::FailedPrecondition => 412,
    }
}

/// The message of an error.
pub open spec fn runtime_error_message(error: RouterRuntimeError) -> Seq<char> {
    match error {
        RouterRuntimeError::Protocol { status_code, message } => message@,
        RouterRuntimeError::Runtime { message } => message@,
    }
}

/// The answer that tells of an error of the runtime.
pub open spec fn runtime_error_answer(error: RouterRuntimeError) -> Answered {
    match error {
        RouterRuntimeError::Protocol { status_code, message } => error_answer(
            http_status_of(status_code) as nat,
            message@,
        ),
        RouterRuntimeError::Runtime { message } => error_answer(500, message@),
    }
}

/// The answer that tells of an error of the runtime.
pub fn router_runtime_error_json(error: &RouterRuntimeError) -> (reply: Reply)
    ensures
        reply@ == runtime_error_answer(*error),
{
    match error {
        RouterRuntimeError::Protocol { status_code, message } => error_reply(
            router_status_code_to_http_status(*status_code),
            message.as_str(),
        ),
        RouterRuntimeError::Runtime { message } => error_reply(500, message.as_str()),
    }
}

/// The answer that tells why a request was turned down.
pub fn router_protocol_error_json(status_code: RouterStatusCode, message: &str) -> (reply: Reply)
    ensures
        reply@ == error_answer(http_status_of(status_code) as nat, message@),
{
    error_reply(router_status_code_to_http_status(status_code), message)
}

/// The name of an answer: the name of the request, with a prefix that it has once.
pub open spec fn response_id(prefix: Seq<char>, request_id: Seq<char>) -> Seq<char> {
    if prefix.is_prefix_of(request_id) {
        request_id
    } else {
        prefix + request_id
    }
}

/// The name of an answer: the name of the request, with a prefix that it has once.
pub fn openai_response_id(prefix: &str, request_id: &str) -> (id: String)
    ensures
        id@ == response_id(prefix@, request_id@),
{
    let wanted = chars_of(prefix);
    let chars = chars_of(request_id);
    if chars.len() < wanted.len() {
        return cat2(prefix, request_id);
    }
    let mut i: usize = 0;
    while i < wanted.len()
        invariant
            wanted@ == prefix@,
            chars@ == request_id@,
            i <= wanted@.len() <= chars@.len(),
            forall|j: int| 0 <= j < i ==> chars@[j] == #[trigger] wanted@[j],
        decreases wanted@.len() - i,
    {
        if chars[i] != wanted[i] {
            proof {
                assert(request_id@.subrange(0, prefix@.len() as int)[i as int] != prefix@[i as int]);
            }
            return cat2(prefix, request_id);
        }
        i = i + 1;
    }
    proof {
        assert(request_id@.subrange(0, prefix@.len() as int) =~= prefix@);
    }
    request_id.to_owned()
}

/// A list of token numbers.
pub open spec fn token_array(tokens: Seq<u32>) -> JsonView {
    JsonView::Array(tokens.map_values(|token: u32| JsonView::Number(JsonNumber::Unsigned(token as u64))))
}

/// A list of token numbers.
pub fn token_array_json(tokens: &Vec<u32>) -> (json: Json)
    ensures
        json@ == token_array(tokens@),
        float_free(json),
{
    let mut items: Vec<Json> = Vec::new();
    let mut i: usize = 0;
    while i < tokens.len()
        invariant
            i <= tokens@.len(),
            items@.len() == i,
            forall|j: int|
                0 <= j < i ==> (#[trigger] items@[j])@ == JsonView::Number(
                    JsonNumber::Unsigned(tokens@[j] as u64),
                ) && float_free(items@[j]),
        decreases tokens@.len() - i,
    {
        items.push(Json::natural(tokens[i] as u64));
        i = i + 1;
    }
    proof {
        assert(views(items@) =~= token_array(tokens@)->Array_0);
    }
    Json::array(items)
}

/// How many tokens a request took.
pub open spec fn usage_body(prompt_tokens: i32, completion_tokens: i32, cached_tokens: i32) -> JsonView {
    empty_object().with("prompt_tokens"@, integer_of(prompt_tokens)).with(
        "completion_tokens"@,
        integer_of(completion_tokens),
    ).with("cached_tokens"@, integer_of(cached_tokens))
}

/// How many tokens a request took.
pub fn usage_json(prompt_tokens: i32, completion_tokens: i32, cached_tokens: i32) -> (json: Json)
    ensures
        json@ == usage_body(prompt_tokens, completion_tokens, cached_tokens),
        float_free(json),
{
    Json::object().with("prompt_tokens", Json::integer(prompt_tokens as i64)).with(
        "completion_tokens",
        Json::integer(completion_tokens as i64),
    ).with("cached_tokens", Json::integer(cached_tokens as i64))
}

/// How many tokens a request took, with the total.
pub open spec fn total_usage_body(
    prompt_tokens: i32,
    completion_tokens: i32,
    cached_tokens: i32,
) -> JsonView {
    empty_object().with("prompt_tokens"@, integer_of(prompt_tokens)).with(
        "completion_tokens"@,
        integer_of(completion_tokens),
    ).with("total_tokens"@, integer_view(prompt_tokens + completion_tokens)).with(
        "cached_tokens"@,
        integer_of(cached_tokens),
    )
}

/// How many tokens a request took, with the total.
pub fn total_usage_json(prompt_tokens: i32, completion_tokens: i32, cached_tokens: i32) -> (json:
    Json)
    requires
        i32::MIN <= prompt_tokens + completion_tokens <= i32::MAX,
    ensures
        json@ == total_usage_body(prompt_tokens, completion_tokens, cached_tokens),
        float_free(json),
{
    let total: i32 = prompt_tokens + completion_tokens;
    Json::object().with("prompt_tokens", Json::integer(prompt_tokens as i64)).with(
        "completion_tokens",
        Json::integer(completion_tokens as i64),
    ).with("total_tokens", Json::integer(total as i64)).with(
        "cached_tokens",
        Json::integer(cached_tokens as i64),
    )
}

/// Whether the total of a complete answer's tokens fits in 32 bits.
pub open spec fn total_fits(complete: RouterGenerateComplete) -> bool {
    i32::MIN <= complete.prompt_tokens + complete.completion_tokens <= i32::MAX
}

/// Whether the total of a complete answer's tokens fits in 32 bits.
pub fn total_tokens_fit(complete: &RouterGenerateComplete) -> (fits: bool)
    ensures
        fits == total_fits(*complete),
{
    let total: i64 = complete.prompt_tokens as i64 + complete.completion_tokens as i64;
    -0x8000_0000 <= total && total <= 0x7fff_ffff
}

/// Whether the totals of all complete answers fit in 32 bits.
pub open spec fn response_total_fits(response: RouterGenerateResponse) -> bool {
    response.body matches RouterGenerateResponseBody::Complete(complete) ==> total_fits(complete)
}

/// A complete answer of `/generate`.
pub open spec fn generate_body(request_id: Seq<char>, complete: RouterGenerateComplete) -> JsonView {
    empty_object().with("request_id"@, JsonView::Text(request_id)).with(
        "text"@,
        JsonView::Text(complete.text@),
    ).with("output_ids"@, token_array(complete.output_ids@)).with(
        "finish_reason"@,
        JsonView::Text(complete.finish_reason@),
    ).with(
        "usage"@,
        usage_body(complete.prompt_tokens, complete.completion_tokens, complete.cached_tokens),
    )
}

fn generate_json(request_id: &str, complete: &RouterGenerateComplete) -> (json: Json)
    ensures
        json@ == generate_body(request_id@, *complete),
        float_free(json),
{
    Json::object().with("request_id", Json::text(request_id)).with(
        "text",
        Json::text(complete.text.as_str()),
    ).with("output_ids", token_array_json(&complete.output_ids)).with(
        "finish_reason",
        Json::text(complete.finish_reason.as_str()),
    ).with(
        "usage",
        usage_json(complete.prompt_tokens, complete.completion_tokens, complete.cached_tokens),
    )
}

/// A complete answer of `/generate`; another answer is handed back.
pub fn generate_complete_response_json(response: RouterGenerateResponse) -> (json: Result<
    Json,
    RouterGenerateResponse,
>)
    ensures
        match response.body {
            RouterGenerateResponseBody::Complete(complete) => json is Ok && json->Ok_0@
                == generate_body(response.request_id@, complete),
            _ => json == Err::<Json, RouterGenerateResponse>(response),
        },
{
    match response.body {
        RouterGenerateResponseBody::Complete(complete) => Ok(
            generate_json(response.request_id.as_str(), &complete),
        ),
        body => Err(RouterGenerateResponse { request_id: response.request_id, body }),
    }
}

/// What a stream of `/generate` tells of an answer.
pub open spec fn generate_event(response: RouterGenerateResponse) -> JsonView {
    match response.body {
        RouterGenerateResponseBody::Chunk(chunk) => empty_object().with(
            "request_id"@,
            JsonView::Text(response.request_id@),
        ).with("text"@, JsonView::Text(chunk.text@)).with(
            "output_ids"@,
            token_array(chunk.token_ids@),
        ).with(
            "usage"@,
            usage_body(chunk.prompt_tokens, chunk.completion_tokens, chunk.cached_tokens),
        ),
        RouterGenerateResponseBody::Complete(complete) => generate_body(
            response.request_id@,
            complete,
        ),
        RouterGenerateResponseBody::Error(error) => error_body(error.message@),
    }
}

/// A server-sent event.
pub open spec fn frame_of(payload: Seq<char>) -> Seq<char> {
    "data: "@ + payload + "\n\n"@
}

/// The frame of a document, or what is said where it cannot be rendered.
pub open spec fn rendered_frame(document: JsonView, failure: Seq<char>) -> Result<
    Seq<char>,
    Seq<char>,
> {
    match rendered(document) {
        Ok(text) => Ok(frame_of(text)),
        Err(message) => Err(failure + message),
    }
}

fn render_frame(document: &Json, failure: &str) -> (frame: Result<String, String>)
    requires
        float_free(*document),
    ensures
        crate::payload::reads_text(frame, rendered_frame(document@, failure@)),
{
    match render_json(document) {
        Ok(text) => Ok(cat3("data: ", text.as_str(), "\n\n")),
        Err(message) => Err(cat2(failure, message.as_str())),
    }
}

/// The document that a stream of `/generate` tells of an answer.
pub fn generate_stream_event(response: &RouterGenerateResponse) -> (document: Json)
    ensures
        document@ == generate_event(*response),
        float_free(document),
{
    match &response.body {
        RouterGenerateResponseBody::Chunk(chunk) => Json::object().with(
            "request_id",
            Json::text(response.request_id.as_str()),
        ).with("text", Json::text(chunk.text.as_str())).with(
            "output_ids",
            token_array_json(&chunk.token_ids),
        ).with(
            "usage",
            usage_json(chunk.prompt_tokens, chunk.completion_tokens, chunk.cached_tokens),
        ),
        RouterGenerateResponseBody::Complete(complete) => generate_json(
            response.request_id.as_str(),
            complete,
        ),
        RouterGenerateResponseBody::Error(error) => error_json(error.message.as_str()),
    }
}

/// What a stream of `/generate` sends for an answer.
pub fn generate_stream_frame(response: &RouterGenerateResponse) -> (frame: Result<String, String>)
    ensures
        crate::payload::reads_text(
            frame,
            rendered_frame(generate_event(*response), "serialize SGLang generate stream JSON: "@),
        ),
{
    let document = generate_stream_event(response);
    render_frame(&document, "serialize SGLang generate stream JSON: ")
}

/// What a stream sends when it fails.
pub fn sse_error_frame(message: &str) -> (frame: String)
    ensures
        frame@ == frame_of(displayed(error_body(message@))),
{
    let document = error_json(message);
    cat3("data: ", display_json(&document).as_str(), "\n\n")
}

/// What a chat stream tells of an answer.
pub open spec fn chat_event(response: RouterGenerateResponse, model: Seq<char>) -> JsonView {
    let head = empty_object().with(
        "id"@,
        JsonView::Text(response_id("chatcmpl-"@, response.request_id@)),
    ).with("object"@, JsonView::Text("chat.completion.chunk"@)).with(
        "model"@,
        JsonView::Text(model),
    );
    match response.body {
        RouterGenerateResponseBody::Chunk(chunk) => head.with(
            "choices"@,
            JsonView::Array(
                seq![
                    empty_object().with("index"@, integer_of(chunk.index)).with(
                        "delta"@,
                        empty_object().with("content"@, JsonView::Text(chunk.text@)),
                    ).with("finish_reason"@, JsonView::Null),
                ],
            ),
        ),
        RouterGenerateResponseBody::Complete(complete) => head.with(
            "choices"@,
            JsonView::Array(
                seq![
                    empty_object().with("index"@, integer_of(complete.index)).with(
                        "delta"@,
                        empty_object(),
                    ).with("finish_reason"@, JsonView::Text(complete.finish_reason@)),
                ],
            ),
        ).with(
            "usage"@,
            usage_body(complete.prompt_tokens, complete.completion_tokens, complete.cached_tokens),
        ),
        RouterGenerateResponseBody::Error(error) => error_body(error.message@),
    }
}

/// The document that a chat stream tells of an answer.
pub fn chat_stream_event(response: &RouterGenerateResponse, model: &str) -> (document: Json)
    ensures
        document@ == chat_event(*response, model@),
        float_free(document),
{
    let id = openai_response_id("chatcmpl-", response.request_id.as_str());
    let head = Json::object().with("id", Json::text(id.as_str())).with(
        "object",
        Json::text("chat.completion.chunk"),
    ).with("model", Json::text(model));
    match &response.body {
        RouterGenerateResponseBody::Chunk(chunk) => head.with(
            "choices",
            Json::array_of_one(
                Json::object().with("index", Json::integer(chunk.index as i64)).with(
                    "delta",
                    Json::object().with("content", Json::text(chunk.text.as_str())),
                ).with("finish_reason", Json::null()),
            ),
        ),
        RouterGenerateResponseBody::Complete(complete) => head.with(
            "choices",
            Json::array_of_one(
                Json::object().with("index", Json::integer(complete.index as i64)).with(
                    "delta",
                    Json::object(),
                ).with("finish_reason", Json::text(complete.finish_reason.as_str())),
            ),
        ).with(
            "usage",
            usage_json(complete.prompt_tokens, complete.completion_tokens, complete.cached_tokens),
        ),
        RouterGenerateResponseBody::Error(error) => error_json(error.message.as_str()),
    }
}

/// What a chat stream sends for an answer.
pub fn chat_stream_frame(response: &RouterGenerateResponse, model: &str) -> (frame: Result<
    String,
    String,
>)
    ensures
        crate::payload::reads_text(
            frame,
            rendered_frame(chat_event(*response, model@), "serialize OpenAI chat stream JSON: "@),
        ),
{
    let document = chat_stream_event(response, model);
    render_frame(&document, "serialize OpenAI chat stream JSON: ")
}

/// What a completion stream tells of an answer.
pub open spec fn completion_event(response: RouterGenerateResponse, model: Seq<char>) -> JsonView {
    let head = empty_object().with(
        "id"@,
        JsonView::Text(response_id("cmpl-"@, response.request_id@)),
    ).with("object"@, JsonView::Text("text_completion"@)).with("model"@, JsonView::Text(model));
    match response.body {
        RouterGenerateResponseBody::Chunk(chunk) => head.with(
            "choices"@,
            JsonView::Array(
                seq![
                    empty_object().with("index"@, integer_of(chunk.index)).with(
                        "text"@,
                        JsonView::Text(chunk.text@),
                    ).with("logprobs"@, JsonView::Null).with("finish_reason"@, JsonView::Null),
                ],
            ),
        ),
        RouterGenerateResponseBody::Complete(complete) => head.with(
            "choices"@,
            JsonView::Array(
                seq![
                    empty_object().with("index"@, integer_of(complete.index)).with(
                        "text"@,
                        JsonView::Text(""@),
                    ).with("logprobs"@, JsonView::Null).with(
                        "finish_reason"@,
                        JsonView::Text(complete.finish_reason@),
                    ),
                ],
            ),
        ).with(
            "usage"@,
            total_usage_body(
                complete.prompt_tokens,
                complete.completion_tokens,
                complete.cached_tokens,
            ),
        ),
        RouterGenerateResponseBody::Error(error) => error_body(error.message@),
    }
}

/// The document that a completion stream tells of an answer.
pub fn completion_stream_event(response: &RouterGenerateResponse, model: &str) -> (document: Json)
    requires
        response_total_fits(*response),
    ensures
        document@ == completion_event(*response, model@),
        float_free(document),
{
    let id = openai_response_id("cmpl-", response.request_id.as_str());
    let head = Json::object().with("id", Json::text(id.as_str())).with(
        "object",
        Json::text("text_completion"),
    ).with("model", Json::text(model));
    match &response.body {
        RouterGenerateResponseBody::Chunk(chunk) => head.with(
            "choices",
            Json::array_of_one(
                Json::object().with("index", Json::integer(chunk.index as i64)).with(
                    "text",
                    Json::text(chunk.text.as_str()),
                ).with("logprobs", Json::null()).with("finish_reason", Json::null()),
            ),
        ),
        RouterGenerateResponseBody::Complete(complete) => head.with(
            "choices",
            Json::array_of_one(
                Json::object().with("index", Json::integer(complete.index as i64)).with(
                    "text",
                    Json::text(""),
                ).with("logprobs", Json::null()).with(
                    "finish_reason",
                    Json::text(complete.finish_reason.as_str()),
                ),
            ),
        ).with(
            "usage",
            total_usage_json(
                complete.prompt_tokens,
                complete.completion_tokens,
                complete.cached_tokens,
            ),
        ),
        RouterGenerateResponseBody::Error(error) => error_json(error.message.as_str()),
    }
}

/// What a completion stream sends for an answer.
pub fn completion_stream_frame(response: &RouterGenerateResponse, model: &str) -> (frame: Result<
    String,
    String,
>)
    requires
        response_total_fits(*response),
    ensures
        crate::payload::reads_text(
            frame,
            rendered_frame(
                completion_event(*response, model@),
                "serialize OpenAI completion stream JSON: "@,
            ),
        ),
{
    let document = completion_stream_event(response, model);
    render_frame(&document, "serialize OpenAI completion stream JSON: ")
}

} // verus!
