//! The answers of the OpenAI endpoints.
use vstd::prelude::*;
use vstd::string::*;

use crate::http_replies::{
    error_answer, generate_body, generate_complete_response_json, integer_of, internal_error_json,
    openai_response_id, response_id, response_total_fits, total_usage_body, total_usage_json,
    usage_body, usage_json, Answered, Reply,
};
use crate::json::{empty_object, views, Json, JsonNumber, JsonView};
use crate::router::{RouterGenerateComplete, RouterGenerateResponse, RouterGenerateResponseBody};

verus! {

/// The last of several answers.
pub open spec fn last_response(responses: Seq<RouterGenerateResponse>) -> Option<
    RouterGenerateResponse,
> {
    if responses.len() > 0 {
        Some(responses.last())
    } else {
        None
    }
}

/// What is said of answers whose last is not complete.
pub open spec fn failure_in(
    responses: Seq<RouterGenerateResponse>,
    chunk_message: Seq<char>,
) -> Option<Seq<char>> {
    match last_response(responses) {
        None => Some("generation produced no response"@),
        Some(response) => match response.body {
            RouterGenerateResponseBody::Complete(complete) => None,
            RouterGenerateResponseBody::Chunk(chunk) => Some(chunk_message),
            RouterGenerateResponseBody::Error(error) => Some(error.message@),
        },
    }
}

/// The complete answer that answers end with.
pub open spec fn complete_of(responses: Seq<RouterGenerateResponse>) -> RouterGenerateComplete {
    responses.last().body->Complete_0
}

/// What is said of a batch in which some answers do not end complete.
pub open spec fn batch_failure(
    batch: Seq<Vec<RouterGenerateResponse>>,
    chunk_message: Seq<char>,
) -> Option<Seq<char>>
    decreases batch.len(),
{
    if batch.len() == 0 {
        None
    } else if batch_failure(batch.drop_last(), chunk_message) is Some {
        batch_failure(batch.drop_last(), chunk_message)
    } else {
        failure_in(batch.last()@, chunk_message)
    }
}

/// The tokens of one kind over the complete answers of a batch.
pub open spec fn tokens_sum(
    batch: Seq<Vec<RouterGenerateResponse>>,
    count: spec_fn(RouterGenerateComplete) -> int,
) -> int
    decreases batch.len(),
{
    if batch.len() == 0 {
        0
    } else {
        tokens_sum(batch.drop_last(), count) + (if failure_in(batch.last()@, Seq::empty()) is None {
            count(complete_of(batch.last()@))
        } else {
            0
        })
    }
}

/// The tokens of the prompts of a batch.
pub open spec fn prompt_sum(batch: Seq<Vec<RouterGenerateResponse>>) -> int {
    tokens_sum(batch, |complete: RouterGenerateComplete| complete.prompt_tokens as int)
}

/// The tokens of the completions of a batch.
pub open spec fn completion_sum(batch: Seq<Vec<RouterGenerateResponse>>) -> int {
    tokens_sum(batch, |complete: RouterGenerateComplete| complete.completion_tokens as int)
}

/// The cached tokens of a batch.
pub open spec fn cached_sum(batch: Seq<Vec<RouterGenerateResponse>>) -> int {
    tokens_sum(batch, |complete: RouterGenerateComplete| complete.cached_tokens as int)
}

/// Whether a number fits in 32 signed bits.
pub open spec fn fits(n: int) -> bool {
    i32::MIN <= n <= i32::MAX
}

/// Whether the sums over the answers before the first that is not complete fit in 32 bits.
pub open spec fn usage_fits(batch: Seq<Vec<RouterGenerateResponse>>) -> bool {
    forall|n: int|
        0 <= n <= batch.len() && #[trigger] batch_failure(batch.take(n), Seq::empty()) is None
            ==> fits(prompt_sum(batch.take(n))) && fits(completion_sum(batch.take(n))) && fits(
            cached_sum(batch.take(n)),
        )
}

proof fn lemma_failure_stays(
    batch: Seq<Vec<RouterGenerateResponse>>,
    chunk_message: Seq<char>,
    i: int,
)
    requires
        0 <= i <= batch.len(),
    ensures
        batch_failure(batch.take(i), chunk_message) is Some ==> batch_failure(batch, chunk_message)
            == batch_failure(batch.take(i), chunk_message),
    decreases batch.len() - i,
{
    if i < batch.len() {
        assert(batch.take(i + 1).drop_last() =~= batch.take(i));
        lemma_failure_stays(batch, chunk_message, i + 1);
    } else {
        assert(batch.take(i) =~= batch);
    }
}

proof fn lemma_any_message(batch: Seq<Vec<RouterGenerateResponse>>, a: Seq<char>, b: Seq<char>)
    ensures
        (batch_failure(batch, a) is None) == (batch_failure(batch, b) is None),
    decreases batch.len(),
{
    if batch.len() > 0 {
        lemma_any_message(batch.drop_last(), a, b);
    }
}

proof fn lemma_step(batch: Seq<Vec<RouterGenerateResponse>>, i: int)
    requires
        0 <= i < batch.len(),
    ensures
        batch.take(i + 1).drop_last() == batch.take(i),
        batch.take(i + 1).last() == batch[i],
{
    assert(batch.take(i + 1).drop_last() =~= batch.take(i));
}

/// Whether the sums over the answers before the first that is not complete fit in 32 bits.
pub fn batch_usage_fits(batch: &Vec<Vec<RouterGenerateResponse>>) -> (result: bool)
    ensures
        result == usage_fits(batch@),
{
    let ghost all = batch@;
    let mut prompt: i64 = 0;
    let mut completion: i64 = 0;
    let mut cached: i64 = 0;
    let mut i: usize = 0;
    proof {
        assert(all.take(0) =~= Seq::empty());
    }
    while i < batch.len()
        invariant
            i <= batch@.len(),
            all == batch@,
            batch_failure(all.take(i as int), Seq::empty()) is None,
            prompt == prompt_sum(all.take(i as int)),
            completion == completion_sum(all.take(i as int)),
            cached == cached_sum(all.take(i as int)),
            fits(prompt as int),
            fits(completion as int),
            fits(cached as int),
            forall|n: int|
                0 <= n <= i && #[trigger] batch_failure(all.take(n), Seq::empty()) is None ==> fits(
                    prompt_sum(all.take(n)),
                ) && fits(completion_sum(all.take(n))) && fits(cached_sum(all.take(n))),
        decreases batch@.len() - i,
    {
        proof {
            lemma_step(all, i as int);
        }
        let responses = &batch[i];
        let complete = if responses.len() > 0 {
            match &responses[responses.len() - 1].body {
                RouterGenerateResponseBody::Complete(complete) => Some(complete),
                _ => None,
            }
        } else {
            None
        };
        match complete {
            Some(complete) => {
                prompt = prompt + complete.prompt_tokens as i64;
                completion = completion + complete.completion_tokens as i64;
                cached = cached + complete.cached_tokens as i64;
                proof {
                    assert(batch_failure(all.take(i + 1), Seq::empty()) is None);
                }
                if prompt < -0x8000_0000 || prompt > 0x7fff_ffff || completion < -0x8000_0000
                    || completion > 0x7fff_ffff || cached < -0x8000_0000 || cached > 0x7fff_ffff {
                    return false;
                }
            },
            None => {
                proof {
                    assert forall|n: int|
                        0 <= n <= all.len() && #[trigger] batch_failure(
                            all.take(n),
                            Seq::empty(),
                        ) is None implies fits(prompt_sum(all.take(n))) && fits(
                        completion_sum(all.take(n)),
                    ) && fits(cached_sum(all.take(n))) by {
                        if n > i {
                            lemma_failure_stays(all.take(n), Seq::empty(), i + 1);
                            assert(all.take(n).take(i + 1) =~= all.take(i + 1));
                        }
                    }
                }
                return true;
            },
        }
        i = i + 1;
    }
    proof {
        assert(all.take(i as int) =~= all);
    }
    true
}

/// The name of the first request of a batch.
pub open spec fn first_id(batch: Seq<Vec<RouterGenerateResponse>>) -> Seq<char> {
    if batch.len() > 0 && batch[0]@.len() > 0 {
        batch[0]@.last().request_id@
    } else {
        Seq::empty()
    }
}

/// The number `i`.
pub open spec fn place(i: int) -> JsonView {
    JsonView::Number(JsonNumber::Unsigned(i as u64))
}

/// One choice of a chat answer.
pub open spec fn chat_choice(index: JsonView, complete: RouterGenerateComplete) -> JsonView {
    empty_object().with("index"@, index).with(
        "message"@,
        empty_object().with("role"@, JsonView::Text("assistant"@)).with(
            "content"@,
            JsonView::Text(complete.text@),
        ),
    ).with("finish_reason"@, JsonView::Text(complete.finish_reason@))
}

fn chat_choice_json(index: Json, complete: &RouterGenerateComplete) -> (json: Json)
    ensures
        json@ == chat_choice(index@, *complete),
{
    Json::object().with("index", index).with(
        "message",
        Json::object().with("role", Json::text("assistant")).with(
            "content",
            Json::text(complete.text.as_str()),
        ),
    ).with("finish_reason", Json::text(complete.finish_reason.as_str()))
}

/// A chat answer.
pub open spec fn chat_body(
    id: Seq<char>,
    model: Seq<char>,
    choices: Seq<JsonView>,
    usage: JsonView,
) -> JsonView {
    empty_object().with("id"@, JsonView::Text(response_id("chatcmpl-"@, id))).with(
        "object"@,
        JsonView::Text("chat.completion"@),
    ).with("model"@, JsonView::Text(model)).with("choices"@, JsonView::Array(choices)).with(
        "usage"@,
        usage,
    )
}

/// The message for a stream piece where a whole chat answer was wanted.
pub open spec fn chat_chunk_message() -> Seq<char> {
    "non-stream HTTP chat completion returned a stream chunk"@
}

/// The answer to a chat request.
pub open spec fn chat_answer(
    responses: Seq<RouterGenerateResponse>,
    model: Seq<char>,
) -> Answered {
    match failure_in(responses, chat_chunk_message()) {
        Some(message) => error_answer(500, message),
        None => {
            let complete = complete_of(responses);
            Answered {
                status: 200,
                body: chat_body(
                    responses.last().request_id@,
                    model,
                    seq![chat_choice(integer_of(complete.index), complete)],
                    usage_body(
                        complete.prompt_tokens,
                        complete.completion_tokens,
                        complete.cached_tokens,
                    ),
                ),
            }
        },
    }
}

/// The answer to a batch of chat requests.
pub open spec fn chat_batch_answer(
    batch: Seq<Vec<RouterGenerateResponse>>,
    model: Seq<char>,
) -> Answered {
    match batch_failure(batch, chat_chunk_message()) {
        Some(message) => error_answer(500, message),
        None => Answered {
            status: 200,
            body: chat_body(
                first_id(batch),
                model,
                Seq::new(
                    batch.len(),
                    |i: int| chat_choice(place(i), complete_of(batch[i]@)),
                ),
                usage_body(
                    prompt_sum(batch) as i32,
                    completion_sum(batch) as i32,
                    cached_sum(batch) as i32,
                ),
            ),
        },
    }
}

/// The answer to a chat request.
pub fn http_chat_response_from_router_responses(
    responses: &Vec<RouterGenerateResponse>,
    model: &str,
) -> (reply: Reply)
    ensures
        reply@ == chat_answer(responses@, model@),
{
    if responses.len() == 0 {
        return internal_error_json("generation produced no response");
    }
    let response = &responses[responses.len() - 1];
    match &response.body {
        RouterGenerateResponseBody::Complete(complete) => {
            let id = openai_response_id("chatcmpl-", response.request_id.as_str());
            let choice = chat_choice_json(Json::integer(complete.index as i64), complete);
            Reply {
                status: 200,
                body: Json::object().with("id", Json::text(id.as_str())).with(
                    "object",
                    Json::text("chat.completion"),
                ).with("model", Json::text(model)).with(
                    "choices",
                    Json::array_of_one(choice),
                ).with(
                    "usage",
                    usage_json(
                        complete.prompt_tokens,
                        complete.completion_tokens,
                        complete.cached_tokens,
                    ),
                ),
            }
        },
        RouterGenerateResponseBody::Chunk(_) => internal_error_json(
            "non-stream HTTP chat completion returned a stream chunk",
        ),
        RouterGenerateResponseBody::Error(error) => internal_error_json(error.message.as_str()),
    }
}

/// The answer to a batch of chat requests.
pub fn http_chat_batch_response_from_router_responses(
    batch_responses: &Vec<Vec<RouterGenerateResponse>>,
    model: &str,
) -> (reply: Reply)
    requires
        usage_fits(batch_responses@),
    ensures
        reply@ == chat_batch_answer(batch_responses@, model@),
{
    let ghost all = batch_responses@;
    let ghost wanted = Seq::new(all.len(), |i: int| chat_choice(place(i), complete_of(all[i]@)));
    let mut choices: Vec<Json> = Vec::new();
    let mut prompt_tokens: i32 = 0;
    let mut completion_tokens: i32 = 0;
    let mut cached_tokens: i32 = 0;
    let mut first: String = String::new();
    let mut i: usize = 0;
    proof {
        assert(all.take(0) =~= Seq::empty());
        assert(first@ =~= Seq::empty());
    }
    while i < batch_responses.len()
        invariant
            i <= batch_responses@.len(),
            all == batch_responses@,
            usage_fits(all),
            wanted == Seq::new(all.len(), |i: int| chat_choice(place(i), complete_of(all[i]@))),
            batch_failure(all.take(i as int), chat_chunk_message()) is None,
            prompt_tokens == prompt_sum(all.take(i as int)),
            completion_tokens == completion_sum(all.take(i as int)),
            cached_tokens == cached_sum(all.take(i as int)),
            i == 0 ==> first@ == Seq::<char>::empty(),
            i > 0 ==> first@ == first_id(all),
            choices@.len() == i,
            forall|j: int| 0 <= j < i ==> (#[trigger] choices@[j])@ == wanted[j],
        decreases batch_responses@.len() - i,
    {
        proof {
            lemma_step(all, i as int);
            lemma_failure_stays(all, chat_chunk_message(), i + 1);
            lemma_any_message(all.take(i + 1), chat_chunk_message(), Seq::empty());
        }
        let responses = &batch_responses[i];
        if responses.len() == 0 {
            return internal_error_json("generation produced no response");
        }
        let response = &responses[responses.len() - 1];
        if i == 0 {
            first = response.request_id.clone();
        }
        match &response.body {
            RouterGenerateResponseBody::Complete(complete) => {
                proof {
                    assert(batch_failure(all.take(i + 1), Seq::empty()) is None);
                }
                prompt_tokens = prompt_tokens + complete.prompt_tokens;
                completion_tokens = completion_tokens + complete.completion_tokens;
                cached_tokens = cached_tokens + complete.cached_tokens;
                choices.push(chat_choice_json(Json::natural(i as u64), complete));
            },
            RouterGenerateResponseBody::Chunk(_) => {
                return internal_error_json(
                    "non-stream HTTP chat completion returned a stream chunk",
                );
            },
            RouterGenerateResponseBody::Error(error) => {
                return internal_error_json(error.message.as_str());
            },
        }
        i = i + 1;
    }
    proof {
        assert(all.take(i as int) =~= all);
        assert(views(choices@) =~= wanted);
    }
    let id = openai_response_id("chatcmpl-", first.as_str());
    Reply {
        status: 200,
        body: Json::object().with("id", Json::text(id.as_str())).with(
            "object",
            Json::text("chat.completion"),
        ).with("model", Json::text(model)).with("choices", Json::array(choices)).with(
            "usage",
            usage_json(prompt_tokens, completion_tokens, cached_tokens),
        ),
    }
}

/// One choice of a completion.
pub open spec fn completion_choice(index: JsonView, complete: RouterGenerateComplete) -> JsonView {
    empty_object().with("index"@, index).with("text"@, JsonView::Text(complete.text@)).with(
        "logprobs"@,
        JsonView::Null,
    ).with("finish_reason"@, JsonView::Text(complete.finish_reason@))
}

fn completion_choice_json(index: Json, complete: &RouterGenerateComplete) -> (json: Json)
    ensures
        json@ == completion_choice(index@, *complete),
{
    Json::object().with("index", index).with("text", Json::text(complete.text.as_str())).with(
        "logprobs",
        Json::null(),
    ).with("finish_reason", Json::text(complete.finish_reason.as_str()))
}

/// A completion.
pub open spec fn completion_body(
    id: Seq<char>,
    model: Seq<char>,
    choices: Seq<JsonView>,
    usage: JsonView,
) -> JsonView {
    empty_object().with("id"@, JsonView::Text(response_id("cmpl-"@, id))).with(
        "object"@,
        JsonView::Text("text_completion"@),
    ).with("model"@, JsonView::Text(model)).with("choices"@, JsonView::Array(choices)).with(
        "usage"@,
        usage,
    )
}

/// The message for a stream piece where a whole completion was wanted.
pub open spec fn completion_chunk_message() -> Seq<char> {
    "non-stream HTTP completion returned a stream chunk"@
}

/// The answer to a completion request.
pub open spec fn completion_answer(
    responses: Seq<RouterGenerateResponse>,
    model: Seq<char>,
) -> Answered {
    match failure_in(responses, completion_chunk_message()) {
        Some(message) => error_answer(500, message),
        None => {
            let complete = complete_of(responses);
            Answered {
                status: 200,
                body: completion_body(
                    responses.last().request_id@,
                    model,
                    seq![completion_choice(integer_of(complete.index), complete)],
                    total_usage_body(
                        complete.prompt_tokens,
                        complete.completion_tokens,
                        complete.cached_tokens,
                    ),
                ),
            }
        },
    }
}

/// The answer to a batch of completion requests.
pub open spec fn completion_batch_answer(
    batch: Seq<Vec<RouterGenerateResponse>>,
    model: Seq<char>,
) -> Answered {
    match batch_failure(batch, completion_chunk_message()) {
        Some(message) => error_answer(500, message),
        None => Answered {
            status: 200,
            body: completion_body(
                first_id(batch),
                model,
                Seq::new(
                    batch.len(),
                    |i: int| completion_choice(place(i), complete_of(batch[i]@)),
                ),
                total_usage_body(
                    prompt_sum(batch) as i32,
                    completion_sum(batch) as i32,
                    cached_sum(batch) as i32,
                ),
            ),
        },
    }
}

/// The answer to a completion request.
pub fn http_completion_response_from_router_responses(
    responses: &Vec<RouterGenerateResponse>,
    model: &str,
) -> (reply: Reply)
    requires
        responses@.len() > 0 ==> response_total_fits(responses@.last()),
    ensures
        reply@ == completion_answer(responses@, model@),
{
    if responses.len() == 0 {
        return internal_error_json("generation produced no response");
    }
    let response = &responses[responses.len() - 1];
    match &response.body {
        RouterGenerateResponseBody::Complete(complete) => {
            let id = openai_response_id("cmpl-", response.request_id.as_str());
            let choice = completion_choice_json(Json::integer(complete.index as i64), complete);
            Reply {
                status: 200,
                body: Json::object().with("id", Json::text(id.as_str())).with(
                    "object",
                    Json::text("text_completion"),
                ).with("model", Json::text(model)).with(
                    "choices",
                    Json::array_of_one(choice),
                ).with(
                    "usage",
                    total_usage_json(
                        complete.prompt_tokens,
                        complete.completion_tokens,
                        complete.cached_tokens,
                    ),
                ),
            }
        },
        RouterGenerateResponseBody::Chunk(_) => internal_error_json(
            "non-stream HTTP completion returned a stream chunk",
        ),
        RouterGenerateResponseBody::Error(error) => internal_error_json(error.message.as_str()),
    }
}

/// The tokens of several complete answers.
#[derive(Clone, Copy, Debug)]
pub struct CompletionUsage {
    pub prompt_tokens: i32,
    pub completion_tokens: i32,
    pub cached_tokens: i32,
}

impl CompletionUsage {
    /// Counts the tokens of one more answer.
    pub fn add_complete(&mut self, complete: &RouterGenerateComplete)
        requires
            fits(old(self).prompt_tokens + complete.prompt_tokens),
            fits(old(self).completion_tokens + complete.completion_tokens),
            fits(old(self).cached_tokens + complete.cached_tokens),
        ensures
            final(self).prompt_tokens == old(self).prompt_tokens + complete.prompt_tokens,
            final(self).completion_tokens == old(self).completion_tokens
                + complete.completion_tokens,
            final(self).cached_tokens == old(self).cached_tokens + complete.cached_tokens,
    {
        self.prompt_tokens = self.prompt_tokens + complete.prompt_tokens;
        self.completion_tokens = self.completion_tokens + complete.completion_tokens;
        self.cached_tokens = self.cached_tokens + complete.cached_tokens;
    }
}

/// The answer to a batch of completion requests.
pub fn http_completion_batch_response_from_router_responses(
    batch_responses: &Vec<Vec<RouterGenerateResponse>>,
    model: &str,
) -> (reply: Reply)
    requires
        usage_fits(batch_responses@),
        batch_failure(batch_responses@, Seq::empty()) is None ==> fits(
            prompt_sum(batch_responses@) + completion_sum(batch_responses@),
        ),
    ensures
        reply@ == completion_batch_answer(batch_responses@, model@),
{
    let ghost all = batch_responses@;
    let ghost wanted = Seq::new(
        all.len(),
        |i: int| completion_choice(place(i), complete_of(all[i]@)),
    );
    let mut choices: Vec<Json> = Vec::new();
    let mut usage = CompletionUsage { prompt_tokens: 0, completion_tokens: 0, cached_tokens: 0 };
    let mut first: String = String::new();
    let mut i: usize = 0;
    proof {
        assert(all.take(0) =~= Seq::empty());
        assert(first@ =~= Seq::empty());
    }
    while i < batch_responses.len()
        invariant
            i <= batch_responses@.len(),
            all == batch_responses@,
            usage_fits(all),
            wanted == Seq::new(
                all.len(),
                |i: int| completion_choice(place(i), complete_of(all[i]@)),
            ),
            batch_failure(all.take(i as int), completion_chunk_message()) is None,
            usage.prompt_tokens == prompt_sum(all.take(i as int)),
            usage.completion_tokens == completion_sum(all.take(i as int)),
            usage.cached_tokens == cached_sum(all.take(i as int)),
            i == 0 ==> first@ == Seq::<char>::empty(),
            i > 0 ==> first@ == first_id(all),
            choices@.len() == i,
            forall|j: int| 0 <= j < i ==> (#[trigger] choices@[j])@ == wanted[j],
        decreases batch_responses@.len() - i,
    {
        proof {
            lemma_step(all, i as int);
            lemma_failure_stays(all, completion_chunk_message(), i + 1);
            lemma_any_message(all.take(i + 1), completion_chunk_message(), Seq::empty());
        }
        let responses = &batch_responses[i];
        if responses.len() == 0 {
            return internal_error_json("generation produced no response");
        }
        let response = &responses[responses.len() - 1];
        if i == 0 {
            first = response.request_id.clone();
        }
        match &response.body {
            RouterGenerateResponseBody::Complete(complete) => {
                proof {
                    assert(batch_failure(all.take(i + 1), Seq::empty()) is None);
                }
                usage.add_complete(complete);
                choices.push(completion_choice_json(Json::natural(i as u64), complete));
            },
            RouterGenerateResponseBody::Chunk(_) => {
                return internal_error_json("non-stream HTTP completion returned a stream chunk");
            },
            RouterGenerateResponseBody::Error(error) => {
                return internal_error_json(error.message.as_str());
            },
        }
        i = i + 1;
    }
    proof {
        assert(all.take(i as int) =~= all);
        assert(views(choices@) =~= wanted);
        lemma_any_message(all, completion_chunk_message(), Seq::empty());
    }
    let id = openai_response_id("cmpl-", first.as_str());
    Reply {
        status: 200,
        body: Json::object().with("id", Json::text(id.as_str())).with(
            "object",
            Json::text("text_completion"),
        ).with("model", Json::text(model)).with("choices", Json::array(choices)).with(
            "usage",
            total_usage_json(usage.prompt_tokens, usage.completion_tokens, usage.cached_tokens),
        ),
    }
}

/// The message for a stream piece where a whole answer of `/generate` was wanted.
pub open spec fn generate_chunk_message() -> Seq<char> {
    "non-stream HTTP generate returned a stream chunk"@
}

/// The answer to a `/generate` request.
pub open spec fn generate_answer(responses: Seq<RouterGenerateResponse>) -> Answered {
    match failure_in(responses, generate_chunk_message()) {
        Some(message) => error_answer(500, message),
        None => Answered {
            status: 200,
            body: generate_body(responses.last().request_id@, complete_of(responses)),
        },
    }
}

/// The answer to a batch of `/generate` requests.
pub open spec fn generate_batch_answer(batch: Seq<Vec<RouterGenerateResponse>>) -> Answered {
    match batch_failure(batch, generate_chunk_message()) {
        Some(message) => error_answer(500, message),
        None => Answered {
            status: 200,
            body: JsonView::Array(
                Seq::new(
                    batch.len(),
                    |i: int| generate_body(batch[i]@.last().request_id@, complete_of(batch[i]@)),
                ),
            ),
        },
    }
}

/// The answer to a `/generate` request.
pub fn http_generate_response(responses: Vec<RouterGenerateResponse>) -> (reply: Reply)
    ensures
        reply@ == generate_answer(responses@),
{
    let mut responses = responses;
    match responses.pop() {
        None => internal_error_json("generation produced no response"),
        Some(response) => match generate_complete_response_json(response) {
            Ok(body) => Reply { status: 200, body },
            Err(response) => match response.body {
                RouterGenerateResponseBody::Error(error) => internal_error_json(
                    error.message.as_str(),
                ),
                _ => internal_error_json("non-stream HTTP generate returned a stream chunk"),
            },
        },
    }
}

/// The answer to a batch of `/generate` requests.
pub fn http_generate_batch_response(batch_responses: Vec<Vec<RouterGenerateResponse>>) -> (reply:
    Reply)
    ensures
        reply@ == generate_batch_answer(batch_responses@),
{
    let ghost all = batch_responses@;
    let ghost wanted = generate_batch_answer(all).body->Array_0;
    let mut body: Vec<Json> = Vec::new();
    let mut i: usize = 0;
    let mut batch = batch_responses;
    let total: usize = batch.len();
    proof {
        assert(all.take(0) =~= Seq::empty());
    }
    while i < total
        invariant
            i <= total,
            all == batch_responses@,
            total == all.len(),
            batch@.len() == total,
            forall|j: int| i <= j < total ==> #[trigger] batch@[j] == all[j],
            batch_failure(all.take(i as int), generate_chunk_message()) is None,
            body@.len() == i,
            forall|j: int|
                0 <= j < i ==> (#[trigger] body@[j])@ == generate_body(
                    all[j]@.last().request_id@,
                    complete_of(all[j]@),
                ),
        decreases total - i,
    {
        proof {
            lemma_step(all, i as int);
            lemma_failure_stays(all, generate_chunk_message(), i + 1);
            assert(batch@[i as int] == all[i as int]);
        }
        match batch[i].pop() {
            None => {
                return internal_error_json("generation produced no response");
            },
            Some(response) => match generate_complete_response_json(response) {
                Ok(item) => {
                    body.push(item);
                },
                Err(response) => {
                    return match response.body {
                        RouterGenerateResponseBody::Error(error) => internal_error_json(
                            error.message.as_str(),
                        ),
                        _ => internal_error_json(
                            "non-stream HTTP generate returned a stream chunk",
                        ),
                    };
                },
            },
        }
        i = i + 1;
    }
    proof {
        assert(all.take(i as int) =~= all);
        assert(views(body@) =~= wanted);
    }
    Reply { status: 200, body: Json::array(body) }
}

} // verus!
