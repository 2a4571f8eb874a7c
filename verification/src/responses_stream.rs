//! The events of a responses stream, and the whole answer of the responses endpoint.
use vstd::prelude::*;
use vstd::string::*;

use crate::http_answers::failure_in;
use crate::http_replies::{
    error_answer, integer_of, internal_error_json, openai_response_id, rendered_frame, response_id,
    response_total_fits, router_runtime_error_json, runtime_error_answer, total_fits, Answered,
    Reply,
};
use crate::json::{empty_object, float_free, integer_view, views, Json, JsonNumber, JsonView};
use crate::json_text::{render_json, rendered};
use crate::router::{
    RouterGenerateChunk, RouterGenerateComplete, RouterGenerateResponse,
    RouterGenerateResponseBody, RouterRuntimeError,
};
use crate::text::{cat2, cat3};

verus! {

/// The name of the message of a request.
pub open spec fn message_id(request_id: Seq<char>) -> Seq<char> {
    "msg_"@ + request_id
}

/// The name of the message of a request.
pub fn responses_message_id(request_id: &str) -> (id: String)
    ensures
        id@ == message_id(request_id@),
{
    cat2("msg_", request_id)
}

/// The JSON number `n`.
pub open spec fn natural(n: u64) -> JsonView {
    JsonView::Number(JsonNumber::Unsigned(n))
}

/// A JSON array without items.
pub open spec fn no_items() -> JsonView {
    JsonView::Array(Seq::empty())
}

/// A text part of a message.
pub open spec fn text_part(text: Seq<char>) -> JsonView {
    empty_object().with("type"@, JsonView::Text("output_text"@)).with(
        "text"@,
        JsonView::Text(text),
    ).with("annotations"@, no_items())
}

fn text_part_json(text: &str) -> (json: Json)
    ensures
        json@ == text_part(text@),
        float_free(json),
{
    Json::object().with("type", Json::text("output_text")).with("text", Json::text(text)).with(
        "annotations",
        Json::empty_array(),
    )
}

/// A whole message.
pub open spec fn whole_message(item_id: Seq<char>, text: Seq<char>) -> JsonView {
    empty_object().with("id"@, JsonView::Text(item_id)).with(
        "type"@,
        JsonView::Text("message"@),
    ).with("status"@, JsonView::Text("completed"@)).with(
        "role"@,
        JsonView::Text("assistant"@),
    ).with("content"@, JsonView::Array(seq![text_part(text)]))
}

fn whole_message_json(item_id: &str, text: &str) -> (json: Json)
    ensures
        json@ == whole_message(item_id@, text@),
        float_free(json),
{
    Json::object().with("id", Json::text(item_id)).with("type", Json::text("message")).with(
        "status",
        Json::text("completed"),
    ).with("role", Json::text("assistant")).with(
        "content",
        Json::array_of_one(text_part_json(text)),
    )
}

/// A whole answer of the responses endpoint.
pub open spec fn responses_body(
    model: Seq<char>,
    request_id: Seq<char>,
    complete: RouterGenerateComplete,
    created_at: u64,
) -> JsonView {
    empty_object().with("id"@, JsonView::Text(response_id("resp-"@, request_id))).with(
        "object"@,
        JsonView::Text("response"@),
    ).with("created_at"@, natural(created_at)).with("status"@, JsonView::Text("completed"@)).with(
        "model"@,
        JsonView::Text(model),
    ).with(
        "output"@,
        JsonView::Array(seq![whole_message(message_id(request_id), complete.text@)]),
    ).with("output_text"@, JsonView::Text(complete.text@)).with(
        "usage"@,
        empty_object().with("input_tokens"@, integer_of(complete.prompt_tokens)).with(
            "output_tokens"@,
            integer_of(complete.completion_tokens),
        ).with(
            "total_tokens"@,
            integer_view(complete.prompt_tokens + complete.completion_tokens),
        ).with("cached_tokens"@, integer_of(complete.cached_tokens)),
    )
}

/// A whole answer of the responses endpoint, made at `created_at` seconds.
pub fn responses_complete_json(
    model: &str,
    request_id: &str,
    complete: &RouterGenerateComplete,
    created_at: u64,
) -> (json: Json)
    requires
        total_fits(*complete),
    ensures
        json@ == responses_body(model@, request_id@, *complete, created_at),
        float_free(json),
{
    let id = openai_response_id("resp-", request_id);
    let item_id = responses_message_id(request_id);
    let total: i32 = complete.prompt_tokens + complete.completion_tokens;
    Json::object().with("id", Json::text(id.as_str())).with("object", Json::text("response")).with(
        "created_at",
        Json::natural(created_at),
    ).with("status", Json::text("completed")).with("model", Json::text(model)).with(
        "output",
        Json::array_of_one(whole_message_json(item_id.as_str(), complete.text.as_str())),
    ).with("output_text", Json::text(complete.text.as_str())).with(
        "usage",
        Json::object().with("input_tokens", Json::integer(complete.prompt_tokens as i64)).with(
            "output_tokens",
            Json::integer(complete.completion_tokens as i64),
        ).with("total_tokens", Json::integer(total as i64)).with(
            "cached_tokens",
            Json::integer(complete.cached_tokens as i64),
        ),
    )
}

/// The answer of the responses endpoint.
pub open spec fn responses_answer(
    responses: Seq<RouterGenerateResponse>,
    model: Seq<char>,
    created_at: u64,
) -> Answered {
    match failure_in(responses, "non-stream HTTP responses returned a stream chunk"@) {
        Some(message) => error_answer(500, message),
        None => Answered {
            status: 200,
            body: responses_body(
                model,
                responses.last().request_id@,
                responses.last().body->Complete_0,
                created_at,
            ),
        },
    }
}

/// The answer of the responses endpoint, made at `created_at` seconds.
pub fn http_responses_response_from_router_responses(
    responses: &Vec<RouterGenerateResponse>,
    model: &str,
    created_at: u64,
) -> (reply: Reply)
    requires
        responses@.len() > 0 ==> response_total_fits(responses@.last()),
    ensures
        reply@ == responses_answer(responses@, model@, created_at),
{
    if responses.len() == 0 {
        return internal_error_json("generation produced no response");
    }
    let response = &responses[responses.len() - 1];
    match &response.body {
        RouterGenerateResponseBody::Complete(complete) => Reply {
            status: 200,
            body: responses_complete_json(
                model,
                response.request_id.as_str(),
                complete,
                created_at,
            ),
        },
        RouterGenerateResponseBody::Chunk(_) => internal_error_json(
            "non-stream HTTP responses returned a stream chunk",
        ),
        RouterGenerateResponseBody::Error(error) => internal_error_json(error.message.as_str()),
    }
}

/// What the responses endpoint answers in the end.
pub fn finish_responses(
    generated: Result<Vec<RouterGenerateResponse>, RouterRuntimeError>,
    model: &str,
    created_at: u64,
) -> (reply: Reply)
    requires
        generated matches Ok(responses) ==> responses@.len() > 0 ==> response_total_fits(
            responses@.last(),
        ),
    ensures
        reply@ == (match generated {
            Ok(responses) => responses_answer(responses@, model@, created_at),
            Err(error) => runtime_error_answer(error),
        }),
{
    match generated {
        Ok(responses) => http_responses_response_from_router_responses(
            &responses,
            model,
            created_at,
        ),
        Err(error) => router_runtime_error_json(&error),
    }
}

/// Turns answers into the events of a responses stream.
#[derive(Debug)]
pub struct ResponsesStreamEncoder {
    model: String,
    sequence_number: i32,
    message_open: bool,
    response_id: String,
    item_id: String,
}

/// What a [`ResponsesStreamEncoder`] holds.
pub struct StreamState {
    pub model: Seq<char>,
    pub sequence: int,
    pub open: bool,
    pub response_id: Seq<char>,
    pub item_id: Seq<char>,
}

impl View for ResponsesStreamEncoder {
    type V = StreamState;

    closed spec fn view(&self) -> StreamState {
        StreamState {
            model: self.model@,
            sequence: self.sequence_number as int,
            open: self.message_open,
            response_id: self.response_id@,
            item_id: self.item_id@,
        }
    }
}

/// The stream state once its names are known.
pub open spec fn named(state: StreamState, request_id: Seq<char>) -> StreamState {
    if state.response_id.len() == 0 {
        StreamState {
            response_id: response_id("resp-"@, request_id),
            item_id: message_id(request_id),
            ..state
        }
    } else {
        state
    }
}

/// The first event of a stream.
pub open spec fn created_event(state: StreamState, created_at: u64) -> JsonView {
    empty_object().with("type"@, JsonView::Text("response.created"@)).with(
        "response"@,
        empty_object().with("id"@, JsonView::Text(state.response_id)).with(
            "object"@,
            JsonView::Text("response"@),
        ).with("created_at"@, natural(created_at)).with(
            "status"@,
            JsonView::Text("in_progress"@),
        ).with("model"@, JsonView::Text(state.model)).with("output"@, no_items()).with(
            "output_text"@,
            JsonView::Text(""@),
        ),
    )
}

/// The event that opens the message.
pub open spec fn item_added_event(state: StreamState) -> JsonView {
    empty_object().with("type"@, JsonView::Text("response.output_item.added"@)).with(
        "output_index"@,
        natural(0),
    ).with(
        "item"@,
        empty_object().with("id"@, JsonView::Text(state.item_id)).with(
            "type"@,
            JsonView::Text("message"@),
        ).with("status"@, JsonView::Text("in_progress"@)).with(
            "role"@,
            JsonView::Text("assistant"@),
        ).with("content"@, no_items()),
    )
}

/// The event that opens the text of the message.
pub open spec fn part_added_event(state: StreamState) -> JsonView {
    empty_object().with("type"@, JsonView::Text("response.content_part.added"@)).with(
        "item_id"@,
        JsonView::Text(state.item_id),
    ).with("output_index"@, natural(0)).with("content_index"@, natural(0)).with(
        "part"@,
        empty_object().with("type"@, JsonView::Text("output_text"@)).with(
            "text"@,
            JsonView::Text(""@),
        ).with("annotations"@, no_items()).with("logprobs"@, JsonView::Null),
    )
}

/// The event of a piece of text.
pub open spec fn delta_event(state: StreamState, chunk: RouterGenerateChunk) -> JsonView {
    empty_object().with("type"@, JsonView::Text("response.output_text.delta"@)).with(
        "output_index"@,
        integer_of(chunk.index),
    ).with("content_index"@, natural(0)).with("item_id"@, JsonView::Text(state.item_id)).with(
        "delta"@,
        JsonView::Text(chunk.text@),
    ).with("logprobs"@, no_items())
}

/// The event of the whole text.
pub open spec fn text_done_event(state: StreamState, complete: RouterGenerateComplete) -> JsonView {
    empty_object().with("type"@, JsonView::Text("response.output_text.done"@)).with(
        "output_index"@,
        integer_of(complete.index),
    ).with("content_index"@, natural(0)).with("item_id"@, JsonView::Text(state.item_id)).with(
        "text"@,
        JsonView::Text(complete.text@),
    ).with("logprobs"@, no_items())
}

/// The event that closes the text of the message.
pub open spec fn part_done_event(state: StreamState, complete: RouterGenerateComplete) -> JsonView {
    empty_object().with("type"@, JsonView::Text("response.content_part.done"@)).with(
        "item_id"@,
        JsonView::Text(state.item_id),
    ).with("output_index"@, integer_of(complete.index)).with("content_index"@, natural(0)).with(
        "part"@,
        text_part(complete.text@),
    )
}

/// The event that closes the message.
pub open spec fn item_done_event(state: StreamState, complete: RouterGenerateComplete) -> JsonView {
    empty_object().with("type"@, JsonView::Text("response.output_item.done"@)).with(
        "output_index"@,
        integer_of(complete.index),
    ).with("item"@, whole_message(state.item_id, complete.text@))
}

/// The last event of a stream.
pub open spec fn completed_event(
    state: StreamState,
    request_id: Seq<char>,
    complete: RouterGenerateComplete,
    completed_at: u64,
) -> JsonView {
    empty_object().with("type"@, JsonView::Text("response.completed"@)).with(
        "response"@,
        responses_body(state.model, request_id, complete, completed_at),
    )
}

/// The event of an error.
pub open spec fn failed_event(message: Seq<char>) -> JsonView {
    empty_object().with("type"@, JsonView::Text("response.failed"@)).with(
        "error"@,
        empty_object().with("message"@, JsonView::Text(message)),
    )
}

/// How many events come before those that open the message.
pub open spec fn events_before_opening(state: StreamState) -> nat {
    if state.response_id.len() == 0 {
        1
    } else {
        0
    }
}

/// Whether an answer opens the message.
pub open spec fn opens(state: StreamState, response: RouterGenerateResponse) -> bool {
    !state.open && !(response.body is Error)
}

/// The events of an answer, before they are numbered.
pub open spec fn plain_events(
    state: StreamState,
    response: RouterGenerateResponse,
    created_at: u64,
    completed_at: u64,
) -> Seq<JsonView> {
    let now = named(state, response.request_id@);
    let created = if state.response_id.len() == 0 {
        seq![created_event(now, created_at)]
    } else {
        Seq::empty()
    };
    let opened = if opens(state, response) {
        seq![item_added_event(now), part_added_event(now)]
    } else {
        Seq::empty()
    };
    let rest = match response.body {
        RouterGenerateResponseBody::Chunk(chunk) => if chunk.text@.len() > 0 {
            seq![delta_event(now, chunk)]
        } else {
            Seq::empty()
        },
        RouterGenerateResponseBody::Complete(complete) => seq![
            text_done_event(now, complete),
            part_done_event(now, complete),
            item_done_event(now, complete),
            completed_event(now, response.request_id@, complete, completed_at),
        ],
        RouterGenerateResponseBody::Error(error) => seq![failed_event(error.message@)],
    };
    created + opened + rest
}

/// The events of an answer, numbered.
pub open spec fn events(
    state: StreamState,
    response: RouterGenerateResponse,
    created_at: u64,
    completed_at: u64,
) -> Seq<JsonView> {
    let plain = plain_events(state, response, created_at, completed_at);
    Seq::new(
        plain.len(),
        |i: int| plain[i].with("sequence_number"@, integer_view(state.sequence + i)),
    )
}

/// The stream state after `count` events of an answer.
pub open spec fn state_after(
    state: StreamState,
    response: RouterGenerateResponse,
    count: int,
) -> StreamState {
    let now = named(state, response.request_id@);
    StreamState {
        sequence: state.sequence + count,
        open: state.open || (opens(state, response) && count > events_before_opening(state)),
        ..now
    }
}

/// What a failure to render an event is reported with.
pub open spec fn render_failure() -> Seq<char> {
    "serialize OpenAI responses stream JSON: "@
}

impl ResponsesStreamEncoder {
    /// The encoder of a stream that has not begun.
    pub fn new(model: String) -> (encoder: Self)
        ensures
            encoder@ == (StreamState {
                model: model@,
                sequence: 0,
                open: false,
                response_id: Seq::empty(),
                item_id: Seq::empty(),
            }),
    {
        let encoder = ResponsesStreamEncoder {
            model,
            sequence_number: 0,
            message_open: false,
            response_id: String::new(),
            item_id: String::new(),
        };
        proof {
            assert(encoder@.response_id =~= Seq::empty());
            assert(encoder@.item_id =~= Seq::empty());
        }
        encoder
    }

    /// The events of an answer, numbered. The names of the stream become known.
    fn events_of(
        &mut self,
        response: &RouterGenerateResponse,
        created_at: u64,
        completed_at: u64,
    ) -> (documents: Vec<Json>)
        requires
            response_total_fits(*response),
            old(self)@.sequence + plain_events(
                old(self)@,
                *response,
                created_at,
                completed_at,
            ).len() <= i32::MAX,
        ensures
            final(self)@ == named(old(self)@, response.request_id@),
            views(documents@) == events(old(self)@, *response, created_at, completed_at),
            forall|i: int| 0 <= i < documents@.len() ==> float_free(#[trigger] documents@[i]),
    {
        let ghost start = self@;
        let ghost wanted = plain_events(start, *response, created_at, completed_at);
        let mut plain: Vec<Json> = Vec::new();
        if self.response_id.as_str().is_empty() {
            self.response_id = openai_response_id("resp-", response.request_id.as_str());
            self.item_id = responses_message_id(response.request_id.as_str());
            plain.push(
                Json::object().with("type", Json::text("response.created")).with(
                    "response",
                    Json::object().with("id", Json::text(self.response_id.as_str())).with(
                        "object",
                        Json::text("response"),
                    ).with("created_at", Json::natural(created_at)).with(
                        "status",
                        Json::text("in_progress"),
                    ).with("model", Json::text(self.model.as_str())).with(
                        "output",
                        Json::empty_array(),
                    ).with("output_text", Json::text("")),
                ),
            );
        }
        let ghost now = named(start, response.request_id@);
        proof {
            assert(self@ == now);
        }
        let item_id = self.item_id.as_str();
        let is_error = matches!(response.body, RouterGenerateResponseBody::Error(_));
        if !self.message_open && !is_error {
            plain.push(
                Json::object().with("type", Json::text("response.output_item.added")).with(
                    "output_index",
                    Json::natural(0),
                ).with(
                    "item",
                    Json::object().with("id", Json::text(item_id)).with(
                        "type",
                        Json::text("message"),
                    ).with("status", Json::text("in_progress")).with(
                        "role",
                        Json::text("assistant"),
                    ).with("content", Json::empty_array()),
                ),
            );
            plain.push(
                Json::object().with("type", Json::text("response.content_part.added")).with(
                    "item_id",
                    Json::text(item_id),
                ).with("output_index", Json::natural(0)).with(
                    "content_index",
                    Json::natural(0),
                ).with(
                    "part",
                    Json::object().with("type", Json::text("output_text")).with(
                        "text",
                        Json::text(""),
                    ).with("annotations", Json::empty_array()).with("logprobs", Json::null()),
                ),
            );
        }
        match &response.body {
            RouterGenerateResponseBody::Chunk(chunk) => {
                if !chunk.text.as_str().is_empty() {
                    plain.push(
                        Json::object().with(
                            "type",
                            Json::text("response.output_text.delta"),
                        ).with("output_index", Json::integer(chunk.index as i64)).with(
                            "content_index",
                            Json::natural(0),
                        ).with("item_id", Json::text(item_id)).with(
                            "delta",
                            Json::text(chunk.text.as_str()),
                        ).with("logprobs", Json::empty_array()),
                    );
                }
            },
            RouterGenerateResponseBody::Complete(complete) => {
                plain.push(
                    Json::object().with("type", Json::text("response.output_text.done")).with(
                        "output_index",
                        Json::integer(complete.index as i64),
                    ).with("content_index", Json::natural(0)).with(
                        "item_id",
                        Json::text(item_id),
                    ).with("text", Json::text(complete.text.as_str())).with(
                        "logprobs",
                        Json::empty_array(),
                    ),
                );
                plain.push(
                    Json::object().with("type", Json::text("response.content_part.done")).with(
                        "item_id",
                        Json::text(item_id),
                    ).with("output_index", Json::integer(complete.index as i64)).with(
                        "content_index",
                        Json::natural(0),
                    ).with("part", text_part_json(complete.text.as_str())),
                );
                plain.push(
                    Json::object().with("type", Json::text("response.output_item.done")).with(
                        "output_index",
                        Json::integer(complete.index as i64),
                    ).with("item", whole_message_json(item_id, complete.text.as_str())),
                );
                plain.push(
                    Json::object().with("type", Json::text("response.completed")).with(
                        "response",
                        responses_complete_json(
                            self.model.as_str(),
                            response.request_id.as_str(),
                            complete,
                            completed_at,
                        ),
                    ),
                );
            },
            RouterGenerateResponseBody::Error(error) => {
                plain.push(
                    Json::object().with("type", Json::text("response.failed")).with(
                        "error",
                        Json::object().with("message", Json::text(error.message.as_str())),
                    ),
                );
            },
        }
        proof {
            assert(views(plain@) =~= wanted);
        }
        let ghost all = plain@;
        let mut rest = plain;
        let mut reverse: Vec<Json> = Vec::new();
        let total: usize = rest.len();
        while rest.len() > 0
            invariant
                total == all.len(),
                rest@.len() + reverse@.len() == total,
                rest@ == all.take(rest@.len() as int),
                views(all) == wanted,
                forall|i: int| 0 <= i < all.len() ==> float_free(#[trigger] all[i]),
                start.sequence == self.sequence_number,
                start.sequence + total <= i32::MAX,
                forall|i: int|
                    0 <= i < reverse@.len() ==> (#[trigger] reverse@[i])@ == wanted[total - 1
                        - i].with(
                        "sequence_number"@,
                        integer_view(start.sequence + (total - 1 - i)),
                    ) && float_free(reverse@[i]),
            decreases rest@.len(),
        {
            let ghost n = rest@.len() as int;
            let place: usize = rest.len() - 1;
            if let Some(document) = rest.pop() {
                proof {
                    assert(document == all[n - 1]);
                    assert(views(all)[n - 1] == document@);
                }
                let number: i64 = self.sequence_number as i64 + place as i64;
                reverse.push(document.with("sequence_number", Json::integer(number)));
            }
            proof {
                assert(rest@ =~= all.take(n - 1));
            }
        }
        let mut documents: Vec<Json> = Vec::new();
        let ghost numbered = events(start, *response, created_at, completed_at);
        let ghost back = reverse@;
        while reverse.len() > 0
            invariant
                back.len() == total,
                numbered.len() == total,
                reverse@.len() + documents@.len() == total,
                reverse@ == back.take(reverse@.len() as int),
                forall|i: int|
                    0 <= i < total ==> (#[trigger] back[i])@ == numbered[total - 1 - i]
                        && float_free(back[i]),
                forall|i: int|
                    0 <= i < documents@.len() ==> (#[trigger] documents@[i])@ == numbered[i]
                        && float_free(documents@[i]),
            decreases reverse@.len(),
        {
            let ghost n = reverse@.len() as int;
            if let Some(document) = reverse.pop() {
                proof {
                    assert(document == back[n - 1]);
                }
                documents.push(document);
            }
            proof {
                assert(reverse@ =~= back.take(n - 1));
            }
        }
        proof {
            assert(views(documents@) =~= numbered);
        }
        documents
    }

    /// The frames that a stream sends for an answer. The stream is created at `created_at` and
    /// completed at `completed_at` seconds, where the answer does so.
    pub fn encode(
        &mut self,
        response: &RouterGenerateResponse,
        created_at: u64,
        completed_at: u64,
    ) -> (frames: Result<Vec<String>, String>)
        requires
            response_total_fits(*response),
            old(self)@.sequence + plain_events(
                old(self)@,
                *response,
                created_at,
                completed_at,
            ).len() <= i32::MAX,
        ensures
            ({
                let list = events(old(self)@, *response, created_at, completed_at);
                match frames {
                    Ok(sent) => {
                        &&& sent@.len() == list.len()
                        &&& forall|i: int|
                            0 <= i < list.len() ==> rendered_frame(list[i], render_failure())
                                == Ok::<Seq<char>, Seq<char>>((#[trigger] sent@[i])@)
                        &&& final(self)@ == state_after(old(self)@, *response, list.len() as int)
                    },
                    Err(message) => exists|failing: int|
                        {
                            &&& 0 <= failing < list.len()
                            &&& rendered_frame(#[trigger] list[failing], render_failure()) == Err::<
                                Seq<char>,
                                Seq<char>,
                            >(message@)
                            &&& forall|i: int|
                                0 <= i < failing ==> rendered(#[trigger] list[i]) is Ok
                            &&& final(self)@ == state_after(old(self)@, *response, failing + 1)
                        },
                }
            }),
    {
        let ghost start = self@;
        let before_opening: usize = if self.response_id.as_str().is_empty() {
            1
        } else {
            0
        };
        let opening = !self.message_open && !matches!(
            response.body,
            RouterGenerateResponseBody::Error(_)
        );
        let documents = self.events_of(response, created_at, completed_at);
        let ghost list = events(start, *response, created_at, completed_at);
        let mut frames: Vec<String> = Vec::new();
        let mut i: usize = 0;
        proof {
            assert(self@ == state_after(start, *response, 0));
            assert(views(documents@).len() == documents@.len());
        }
        while i < documents.len()
            invariant
                i <= documents@.len(),
                start == old(self)@,
                views(documents@) == list,
                list == events(start, *response, created_at, completed_at),
                forall|j: int| 0 <= j < documents@.len() ==> float_free(#[trigger] documents@[j]),
                before_opening == events_before_opening(start),
                opening == opens(start, *response),
                self@ == state_after(start, *response, i as int),
                start.sequence + documents@.len() <= i32::MAX,
                frames@.len() == i,
                forall|j: int|
                    0 <= j < i ==> rendered_frame(list[j], render_failure()) == Ok::<
                        Seq<char>,
                        Seq<char>,
                    >((#[trigger] frames@[j])@),
                forall|j: int| 0 <= j < i ==> rendered(#[trigger] list[j]) is Ok,
            decreases documents@.len() - i,
        {
            if opening && i >= before_opening {
                self.message_open = true;
            }
            self.sequence_number = self.sequence_number + 1;
            proof {
                assert(self@ == state_after(start, *response, i + 1));
                assert(list[i as int] == documents@[i as int]@);
            }
            match render_json(&documents[i]) {
                Ok(text) => {
                    frames.push(cat3("data: ", text.as_str(), "\n\n"));
                },
                Err(message) => {
                    proof {
                        assert(rendered_frame(list[i as int], render_failure()) == Err::<
                            Seq<char>,
                            Seq<char>,
                        >(render_failure() + message@));
                    }
                    return Err(
                        cat2("serialize OpenAI responses stream JSON: ", message.as_str()),
                    );
                },
            }
            i = i + 1;
        }
        Ok(frames)
    }
}

/// The events of a stream are numbered without a gap: what one answer leaves off, the next takes
/// up.
pub proof fn events_are_numbered_without_gap(
    state: StreamState,
    first: RouterGenerateResponse,
    next: RouterGenerateResponse,
    times: (u64, u64, u64, u64),
    i: int,
)
    requires
        0 <= i < events(
            state_after(state, first, events(state, first, times.0, times.1).len() as int),
            next,
            times.2,
            times.3,
        ).len(),
    ensures
        events(
            state_after(state, first, events(state, first, times.0, times.1).len() as int),
            next,
            times.2,
            times.3,
        )[i].get("sequence_number"@) == Some(
            integer_view(state.sequence + events(state, first, times.0, times.1).len() + i),
        ),
{
    let after = state_after(state, first, events(state, first, times.0, times.1).len() as int);
    let plain = plain_events(after, next, times.2, times.3);
    assert(plain[i] is Object);
}

/// A stream is created once and its message opened once: after the first answer that opens it, no
/// further answer does.
pub proof fn messages_are_opened_once(
    state: StreamState,
    first: RouterGenerateResponse,
    next: RouterGenerateResponse,
    times: (u64, u64),
)
    requires
        opens(state, first),
    ensures
        ({
            let after = state_after(
                state,
                first,
                events(state, first, times.0, times.1).len() as int,
            );
            !opens(after, next) && after.response_id.len() > 0
        }),
{
    reveal_strlit("resp-");
    let plain = plain_events(state, first, times.0, times.1);
    assert(plain.len() > events_before_opening(state));
}

} // verus!
