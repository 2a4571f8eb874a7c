//! What the answers of the HTTP endpoints promise: each member tells what it is named after.
use vstd::prelude::*;

use crate::http_answers::{batch_failure, failure_in, tokens_sum};
use crate::http_plans::{finish_chat, finish_completion, finish_generate, Generated};
use crate::http_replies::{
    chat_stream_event, completion_stream_event, generate_stream_event, Reply,
};
use crate::json::{Json, JsonNumber, JsonView};
use crate::payload_laws::is_integer;
use crate::responses_stream::finish_responses;
use crate::router::{
    RouterGenerateComplete, RouterGenerateResponse, RouterGenerateResponseBody,
    RouterRuntimeError, RouterStatusCode,
};

verus! {

/// The members of answers have different names.
pub proof fn lemma_member_names()
    ensures
        "id"@.len() == 2,
        "text"@.len() == 4 && "text"@[1] == 'e',
        "role"@.len() == 4 && "role"@[1] == 'o',
        "type"@.len() == 4 && "type"@[1] == 'y',
        "index"@.len() == 5 && "index"@[0] == 'i',
        "model"@.len() == 5 && "model"@[0] == 'm',
        "usage"@.len() == 5 && "usage"@[0] == 'u',
        "error"@.len() == 5 && "error"@[0] == 'e',
        "delta"@.len() == 5 && "delta"@[0] == 'd',
        "object"@.len() == 6 && "object"@[1] == 'b',
        "status"@.len() == 6 && "status"@[1] == 't',
        "output"@.len() == 6 && "output"@[1] == 'u',
        "choices"@.len() == 7 && "choices"@[1] == 'h',
        "content"@.len() == 7 && "content"@[1] == 'o',
        "message"@.len() == 7 && "message"@[1] == 'e',
        "logprobs"@.len() == 8,
        "request_id"@.len() == 10 && "request_id"@[0] == 'r',
        "output_ids"@.len() == 10 && "output_ids"@[0] == 'o',
        "created_at"@.len() == 10 && "created_at"@[0] == 'c',
        "output_text"@.len() == 11 && "output_text"@[0] == 'o',
        "annotations"@.len() == 11 && "annotations"@[0] == 'a',
        "total_tokens"@.len() == 12 && "total_tokens"@[0] == 't',
        "input_tokens"@.len() == 12 && "input_tokens"@[0] == 'i',
        "finish_reason"@.len() == 13 && "finish_reason"@[0] == 'f',
        "prompt_tokens"@.len() == 13 && "prompt_tokens"@[0] == 'p',
        "cached_tokens"@.len() == 13 && "cached_tokens"@[0] == 'c',
        "output_tokens"@.len() == 13 && "output_tokens"@[0] == 'o',
        "completion_tokens"@.len() == 17,
{
    reveal_strlit("index");
    reveal_strlit("text");
    reveal_strlit("logprobs");
    reveal_strlit("finish_reason");
    reveal_strlit("id");
    reveal_strlit("object");
    reveal_strlit("model");
    reveal_strlit("choices");
    reveal_strlit("usage");
    reveal_strlit("prompt_tokens");
    reveal_strlit("completion_tokens");
    reveal_strlit("cached_tokens");
    reveal_strlit("total_tokens");
    reveal_strlit("role");
    reveal_strlit("content");
    reveal_strlit("message");
    reveal_strlit("request_id");
    reveal_strlit("output_ids");
    reveal_strlit("error");
    reveal_strlit("delta");
    reveal_strlit("created_at");
    reveal_strlit("status");
    reveal_strlit("output");
    reveal_strlit("output_text");
    reveal_strlit("input_tokens");
    reveal_strlit("output_tokens");
    reveal_strlit("type");
    reveal_strlit("annotations");
}

/// A member is a text.
pub open spec fn holds_text(document: JsonView, key: Seq<char>, text: Seq<char>) -> bool {
    document.get(key) == Some(JsonView::Text(text))
}

/// A member is an integer.
pub open spec fn holds_integer(document: JsonView, key: Seq<char>, n: int) -> bool {
    document.get(key) is Some && is_integer(document.get(key)->0, n)
}

/// A member is an array of tokens.
pub open spec fn holds_tokens(document: JsonView, key: Seq<char>, tokens: Seq<u32>) -> bool {
    document.get(key) matches Some(JsonView::Array(items)) && items.len() == tokens.len()
        && forall|i: int|
        0 <= i < items.len() ==> #[trigger] items[i] == JsonView::Number(
            JsonNumber::Unsigned(tokens[i] as u64),
        )
}

/// A member tells how many tokens were read, written and taken from the cache.
pub open spec fn tells_usage(document: JsonView, prompt: int, completion: int, cached: int) -> bool {
    &&& document.get("usage"@) is Some
    &&& holds_integer(document.get("usage"@)->0, "prompt_tokens"@, prompt)
    &&& holds_integer(document.get("usage"@)->0, "completion_tokens"@, completion)
    &&& holds_integer(document.get("usage"@)->0, "cached_tokens"@, cached)
}

/// The identifier of an answer is that of its request, behind the prefix of its kind.
pub open spec fn identifies(id: Seq<char>, prefix: Seq<char>, request_id: Seq<char>) -> bool {
    id == request_id && prefix.is_prefix_of(request_id) || id == prefix + request_id
        && !prefix.is_prefix_of(request_id)
}

/// The head of an answer: its identifier, its kind and its model.
pub open spec fn has_head(
    document: JsonView,
    prefix: Seq<char>,
    request_id: Seq<char>,
    object: Seq<char>,
    model: Seq<char>,
) -> bool {
    &&& document.get("id"@) matches Some(JsonView::Text(id)) && identifies(id, prefix, request_id)
    &&& holds_text(document, "object"@, object)
    &&& holds_text(document, "model"@, model)
}

/// A choice of a completion.
pub open spec fn is_completion_choice(
    choice: JsonView,
    index: int,
    text: Seq<char>,
    finish_reason: JsonView,
) -> bool {
    &&& holds_integer(choice, "index"@, index)
    &&& holds_text(choice, "text"@, text)
    &&& choice.get("logprobs"@) == Some(JsonView::Null)
    &&& choice.get("finish_reason"@) == Some(finish_reason)
}

/// A choice of a chat.
pub open spec fn is_chat_choice(
    choice: JsonView,
    index: int,
    text: Seq<char>,
    finish_reason: Seq<char>,
) -> bool {
    &&& holds_integer(choice, "index"@, index)
    &&& choice.get("message"@) is Some
    &&& holds_text(choice.get("message"@)->0, "role"@, "assistant"@)
    &&& holds_text(choice.get("message"@)->0, "content"@, text)
    &&& holds_text(choice, "finish_reason"@, finish_reason)
}

/// An answer of the native endpoint.
pub open spec fn is_generation(
    document: JsonView,
    request_id: Seq<char>,
    complete: RouterGenerateComplete,
) -> bool {
    &&& holds_text(document, "request_id"@, request_id)
    &&& holds_text(document, "text"@, complete.text@)
    &&& holds_tokens(document, "output_ids"@, complete.output_ids@)
    &&& holds_text(document, "finish_reason"@, complete.finish_reason@)
    &&& tells_usage(
        document,
        complete.prompt_tokens as int,
        complete.completion_tokens as int,
        complete.cached_tokens as int,
    )
}

/// An answer that tells of a failure alone.
pub open spec fn is_failure(reply: Reply, status: int, message: Seq<char>) -> bool {
    &&& reply.status == status
    &&& reply.body@.get("error"@) is Some
    &&& holds_text(reply.body@.get("error"@)->0, "message"@, message)
}

/// Whether a request ends complete.
pub open spec fn ends_complete(responses: Seq<RouterGenerateResponse>) -> bool {
    responses.len() > 0 && responses.last().body is Complete
}

/// What a request ends with.
pub open spec fn end_of(responses: Seq<RouterGenerateResponse>) -> RouterGenerateComplete {
    responses.last().body->Complete_0
}

/// Whether every request of a batch ends complete.
pub open spec fn all_end_complete(batch: Seq<Vec<RouterGenerateResponse>>) -> bool {
    forall|i: int| 0 <= i < batch.len() ==> ends_complete((#[trigger] batch[i])@)
}

/// The sum of what each request of a batch counts.
pub open spec fn count_all(
    batch: Seq<Vec<RouterGenerateResponse>>,
    count: spec_fn(RouterGenerateComplete) -> int,
) -> int
    decreases batch.len(),
{
    if batch.len() == 0 {
        0
    } else {
        count(end_of(batch[0]@)) + count_all(batch.skip(1), count)
    }
}

/// Counting from the front and from the back is the same.
proof fn lemma_counted(
    batch: Seq<Vec<RouterGenerateResponse>>,
    count: spec_fn(RouterGenerateComplete) -> int,
)
    requires
        all_end_complete(batch),
    ensures
        tokens_sum(batch, count) == count_all(batch, count),
        batch_failure(batch, Seq::empty()) is None,
        forall|message: Seq<char>| #[trigger] batch_failure(batch, message) is None,
    decreases batch.len(),
{
    if batch.len() > 0 {
        assert forall|i: int| 0 <= i < batch.drop_last().len() implies ends_complete(
            (#[trigger] batch.drop_last()[i])@,
        ) by {
            assert(batch[i] == batch.drop_last()[i]);
        }
        lemma_counted(batch.drop_last(), count);
        assert(ends_complete(batch[batch.len() - 1]@));
        lemma_count_back(batch, count);
        assert forall|message: Seq<char>| #[trigger] batch_failure(batch, message) is None by {
            assert(batch_failure(batch.drop_last(), message) is None);
            assert(failure_in(batch.last()@, message) is None);
        }
    }
}

/// The last request counts at the end.
proof fn lemma_count_back(
    batch: Seq<Vec<RouterGenerateResponse>>,
    count: spec_fn(RouterGenerateComplete) -> int,
)
    requires
        batch.len() > 0,
    ensures
        count_all(batch, count) == count_all(batch.drop_last(), count) + count(
            end_of(batch.last()@),
        ),
    decreases batch.len(),
{
    if batch.len() == 1 {
        assert(batch.skip(1) =~= Seq::empty());
        assert(batch.drop_last() =~= Seq::empty());
    } else {
        let rest = batch.skip(1);
        lemma_count_back(rest, count);
        assert(rest.drop_last() =~= batch.drop_last().skip(1));
        assert(rest.last() == batch.last());
        assert(batch.drop_last()[0] == batch[0]);
    }
}

/// A completion that ends complete is answered with its text, its reason to end and its counts. A
/// completion that ends otherwise is answered with the failure.
pub proof fn completions_tell_their_text(
    responses: Vec<RouterGenerateResponse>,
    model: &str,
    reply: Reply,
)
    requires
        call_ensures(finish_completion, (Ok(Generated::Single(responses)), model), reply),
    ensures
        ends_complete(responses@) ==> {
            let complete = end_of(responses@);
            &&& reply.status == 200
            &&& has_head(
                reply.body@,
                "cmpl-"@,
                responses@.last().request_id@,
                "text_completion"@,
                model@,
            )
            &&& reply.body@.get("choices"@) matches Some(JsonView::Array(choices))
                && choices.len() == 1 && is_completion_choice(
                choices[0],
                complete.index as int,
                complete.text@,
                JsonView::Text(complete.finish_reason@),
            )
            &&& tells_usage(
                reply.body@,
                complete.prompt_tokens as int,
                complete.completion_tokens as int,
                complete.cached_tokens as int,
            )
            &&& holds_integer(
                reply.body@.get("usage"@)->0,
                "total_tokens"@,
                complete.prompt_tokens + complete.completion_tokens,
            )
        },
        responses@.len() == 0 ==> is_failure(reply, 500, "generation produced no response"@),
        responses@.len() > 0 ==> (responses@.last().body matches RouterGenerateResponseBody::Error(
            error,
        ) ==> is_failure(reply, 500, error.message@)),
        responses@.len() > 0 && responses@.last().body is Chunk ==> is_failure(
            reply,
            500,
            "non-stream HTTP completion returned a stream chunk"@,
        ),
{
    lemma_member_names();
}

/// A batch of completions that all end complete is answered with a choice for each request, in order,
/// which holds the text of that request, and with the counts of all.
pub proof fn completion_batches_tell_every_text(
    batch: Vec<Vec<RouterGenerateResponse>>,
    model: &str,
    reply: Reply,
)
    requires
        call_ensures(finish_completion, (Ok(Generated::Batch(batch)), model), reply),
        crate::http_plans::completions_fit(Ok(Generated::Batch(batch))),
        all_end_complete(batch@),
    ensures
        reply.status == 200,
        batch@.len() > 0 ==> has_head(
            reply.body@,
            "cmpl-"@,
            batch@[0]@.last().request_id@,
            "text_completion"@,
            model@,
        ),
        reply.body@.get("choices"@) matches Some(JsonView::Array(choices)) && choices.len()
            == batch@.len() && forall|i: int|
            0 <= i < batch@.len() ==> is_completion_choice(
                #[trigger] choices[i],
                i,
                end_of(batch@[i]@).text@,
                JsonView::Text(end_of(batch@[i]@).finish_reason@),
            ),
        tells_usage(
            reply.body@,
            count_all(batch@, |end: RouterGenerateComplete| end.prompt_tokens as int),
            count_all(batch@, |end: RouterGenerateComplete| end.completion_tokens as int),
            count_all(batch@, |end: RouterGenerateComplete| end.cached_tokens as int),
        ),
        holds_integer(
            reply.body@.get("usage"@)->0,
            "total_tokens"@,
            count_all(batch@, |end: RouterGenerateComplete| end.prompt_tokens as int) + count_all(
                batch@,
                |end: RouterGenerateComplete| end.completion_tokens as int,
            ),
        ),
{
    lemma_member_names();
    lemma_counted(batch@, |end: RouterGenerateComplete| end.prompt_tokens as int);
    lemma_counted(batch@, |end: RouterGenerateComplete| end.completion_tokens as int);
    lemma_counted(batch@, |end: RouterGenerateComplete| end.cached_tokens as int);
    assert(batch@.len() == batch.len());
    assert(batch@.take(batch@.len() as int) =~= batch@);
    assert(batch_failure(batch@.take(batch@.len() as int), Seq::empty()) is None);
    if batch@.len() > 0 {
        assert(ends_complete(batch@[0]@));
    }
}

/// A chat that ends complete is answered with the text of the assistant, its reason to end and its
/// counts. A chat that ends otherwise is answered with the failure.
pub proof fn chats_tell_their_text(
    responses: Vec<RouterGenerateResponse>,
    model: &str,
    reply: Reply,
)
    requires
        call_ensures(finish_chat, (Ok(Generated::Single(responses)), model), reply),
    ensures
        ends_complete(responses@) ==> {
            let complete = end_of(responses@);
            &&& reply.status == 200
            &&& has_head(
                reply.body@,
                "chatcmpl-"@,
                responses@.last().request_id@,
                "chat.completion"@,
                model@,
            )
            &&& reply.body@.get("choices"@) matches Some(JsonView::Array(choices))
                && choices.len() == 1 && is_chat_choice(
                choices[0],
                complete.index as int,
                complete.text@,
                complete.finish_reason@,
            )
            &&& tells_usage(
                reply.body@,
                complete.prompt_tokens as int,
                complete.completion_tokens as int,
                complete.cached_tokens as int,
            )
        },
        responses@.len() == 0 ==> is_failure(reply, 500, "generation produced no response"@),
        responses@.len() > 0 ==> (responses@.last().body matches RouterGenerateResponseBody::Error(
            error,
        ) ==> is_failure(reply, 500, error.message@)),
        responses@.len() > 0 && responses@.last().body is Chunk ==> is_failure(
            reply,
            500,
            "non-stream HTTP chat completion returned a stream chunk"@,
        ),
{
    lemma_member_names();
}

/// A batch of chats that all end complete is answered with a choice for each request, in order, which
/// holds the text of that request, and with the counts of all.
pub proof fn chat_batches_tell_every_text(
    batch: Vec<Vec<RouterGenerateResponse>>,
    model: &str,
    reply: Reply,
)
    requires
        call_ensures(finish_chat, (Ok(Generated::Batch(batch)), model), reply),
        crate::http_answers::usage_fits(batch@),
        all_end_complete(batch@),
    ensures
        reply.status == 200,
        batch@.len() > 0 ==> has_head(
            reply.body@,
            "chatcmpl-"@,
            batch@[0]@.last().request_id@,
            "chat.completion"@,
            model@,
        ),
        reply.body@.get("choices"@) matches Some(JsonView::Array(choices)) && choices.len()
            == batch@.len() && forall|i: int|
            0 <= i < batch@.len() ==> is_chat_choice(
                #[trigger] choices[i],
                i,
                end_of(batch@[i]@).text@,
                end_of(batch@[i]@).finish_reason@,
            ),
        tells_usage(
            reply.body@,
            count_all(batch@, |end: RouterGenerateComplete| end.prompt_tokens as int),
            count_all(batch@, |end: RouterGenerateComplete| end.completion_tokens as int),
            count_all(batch@, |end: RouterGenerateComplete| end.cached_tokens as int),
        ),
{
    lemma_member_names();
    lemma_counted(batch@, |end: RouterGenerateComplete| end.prompt_tokens as int);
    lemma_counted(batch@, |end: RouterGenerateComplete| end.completion_tokens as int);
    lemma_counted(batch@, |end: RouterGenerateComplete| end.cached_tokens as int);
    assert(batch@.len() == batch.len());
    assert(batch@.take(batch@.len() as int) =~= batch@);
    assert(batch_failure(batch@.take(batch@.len() as int), Seq::empty()) is None);
    if batch@.len() > 0 {
        assert(ends_complete(batch@[0]@));
    }
}

/// A generation that ends complete is answered with its text, its tokens, its reason to end and its
/// counts. One that ends otherwise is answered with the failure.
pub proof fn generations_tell_their_text(
    responses: Vec<RouterGenerateResponse>,
    reply: Reply,
)
    requires
        call_ensures(finish_generate, (Ok(Generated::Single(responses)),), reply),
    ensures
        ends_complete(responses@) ==> reply.status == 200 && is_generation(
            reply.body@,
            responses@.last().request_id@,
            end_of(responses@),
        ),
        responses@.len() == 0 ==> is_failure(reply, 500, "generation produced no response"@),
        responses@.len() > 0 ==> (responses@.last().body matches RouterGenerateResponseBody::Error(
            error,
        ) ==> is_failure(reply, 500, error.message@)),
        responses@.len() > 0 && responses@.last().body is Chunk ==> is_failure(
            reply,
            500,
            "non-stream HTTP generate returned a stream chunk"@,
        ),
{
    lemma_member_names();
}

/// A batch of generations that all end complete is answered with an array that holds the answer of
/// each request, in order.
pub proof fn generation_batches_tell_every_text(
    batch: Vec<Vec<RouterGenerateResponse>>,
    reply: Reply,
)
    requires
        call_ensures(finish_generate, (Ok(Generated::Batch(batch)),), reply),
        all_end_complete(batch@),
    ensures
        reply.status == 200,
        reply.body@ matches JsonView::Array(answers) && answers.len() == batch@.len() && forall|
            i: int,
        |
            0 <= i < batch@.len() ==> is_generation(
                #[trigger] answers[i],
                batch@[i]@.last().request_id@,
                end_of(batch@[i]@),
            ),
{
    lemma_member_names();
    lemma_counted(batch@, |end: RouterGenerateComplete| end.prompt_tokens as int);
}

/// A batch fails with the failure of the first request that does not end complete.
pub proof fn first_failure_of_a_batch_is_told(
    batch: Vec<Vec<RouterGenerateResponse>>,
    model: &str,
    generation: Reply,
    chat: Reply,
    first: int,
    message: Seq<char>,
)
    requires
        call_ensures(finish_generate, (Ok(Generated::Batch(batch)),), generation),
        call_ensures(finish_chat, (Ok(Generated::Batch(batch)), model), chat),
        crate::http_answers::usage_fits(batch@),
        0 <= first < batch@.len(),
        forall|i: int| 0 <= i < first ==> ends_complete((#[trigger] batch@[i])@),
        batch@[first]@.len() == 0 && message == "generation produced no response"@
            || batch@[first]@.len() > 0 && (batch@[first]@.last().body matches RouterGenerateResponseBody::Error(
            error,
        ) && message == error.message@),
    ensures
        is_failure(generation, 500, message),
        is_failure(chat, 500, message),
{
    lemma_member_names();
    lemma_first_failure(
        batch@,
        crate::http_answers::generate_chunk_message(),
        first,
        message,
        batch@.len() as int,
    );
    lemma_first_failure(
        batch@,
        crate::http_answers::chat_chunk_message(),
        first,
        message,
        batch@.len() as int,
    );
    assert(batch@.take(batch@.len() as int) =~= batch@);
}

/// The first failure is that of the whole.
proof fn lemma_first_failure(
    batch: Seq<Vec<RouterGenerateResponse>>,
    chunk_message: Seq<char>,
    first: int,
    message: Seq<char>,
    n: int,
)
    requires
        0 <= first < n <= batch.len(),
        forall|i: int| 0 <= i < first ==> ends_complete((#[trigger] batch[i])@),
        failure_in(batch[first]@, chunk_message) == Some(message),
    ensures
        batch_failure(batch.take(n), chunk_message) == Some(message),
    decreases n,
{
    let part = batch.take(n);
    assert(part.drop_last() =~= batch.take(n - 1));
    assert(part.last() == batch[n - 1]);
    if first < n - 1 {
        lemma_first_failure(batch, chunk_message, first, message, n - 1);
    } else {
        assert(all_end_complete(batch.take(n - 1)));
        lemma_counted(batch.take(n - 1), |end: RouterGenerateComplete| 0int);
    }
}

/// A runtime that fails is told as such: a request that it turned down with the status of the reason
/// on the native endpoint and the responses endpoint, any other failure with the status of an
/// internal error.
pub proof fn runtime_failures_are_told(
    error: RouterRuntimeError,
    model: &str,
    created_at: u64,
    generation: Reply,
    chat: Reply,
    completion: Reply,
    response: Reply,
)
    requires
        call_ensures(finish_generate, (Err(error),), generation),
        call_ensures(finish_chat, (Err(error), model), chat),
        call_ensures(finish_completion, (Err(error), model), completion),
        call_ensures(finish_responses, (Err(error), model, created_at), response),
    ensures
        error matches RouterRuntimeError::Runtime { message } ==> is_failure(
            generation,
            500,
            message@,
        ) && is_failure(chat, 500, message@) && is_failure(completion, 500, message@)
            && is_failure(response, 500, message@),
        error matches RouterRuntimeError::Protocol { status_code, message } ==> {
            let status: int = match status_code {
                RouterStatusCode::InvalidArgument => 400,
                RouterStatusCode::ResourceExhausted => 429,
                RouterStatusCode::FailedPrecondition => 412,
            };
            &&& is_failure(generation, status, message@)
            &&& is_failure(response, status, message@)
            &&& is_failure(chat, 500, message@)
            &&& is_failure(completion, 500, message@)
        },
{
    lemma_member_names();
}

/// A response that ends complete is answered with its text, in its message and beside it, and with
/// its counts.
pub proof fn responses_tell_their_text(
    responses: Vec<RouterGenerateResponse>,
    model: &str,
    created_at: u64,
    reply: Reply,
)
    requires
        call_ensures(finish_responses, (Ok(responses), model, created_at), reply),
    ensures
        ends_complete(responses@) ==> {
            let complete = end_of(responses@);
            &&& reply.status == 200
            &&& has_head(
                reply.body@,
                "resp-"@,
                responses@.last().request_id@,
                "response"@,
                model@,
            )
            &&& reply.body@.get("created_at"@) == Some(
                JsonView::Number(JsonNumber::Unsigned(created_at)),
            )
            &&& holds_text(reply.body@, "status"@, "completed"@)
            &&& holds_text(reply.body@, "output_text"@, complete.text@)
            &&& reply.body@.get("output"@) matches Some(JsonView::Array(output)) && output.len()
                == 1 && is_message(output[0], "msg_"@ + responses@.last().request_id@, complete.text@)
            &&& reply.body@.get("usage"@) is Some
            &&& holds_integer(
                reply.body@.get("usage"@)->0,
                "input_tokens"@,
                complete.prompt_tokens as int,
            )
            &&& holds_integer(
                reply.body@.get("usage"@)->0,
                "output_tokens"@,
                complete.completion_tokens as int,
            )
            &&& holds_integer(
                reply.body@.get("usage"@)->0,
                "cached_tokens"@,
                complete.cached_tokens as int,
            )
            &&& holds_integer(
                reply.body@.get("usage"@)->0,
                "total_tokens"@,
                complete.prompt_tokens + complete.completion_tokens,
            )
        },
        responses@.len() == 0 ==> is_failure(reply, 500, "generation produced no response"@),
        responses@.len() > 0 ==> (responses@.last().body matches RouterGenerateResponseBody::Error(
            error,
        ) ==> is_failure(reply, 500, error.message@)),
        responses@.len() > 0 && responses@.last().body is Chunk ==> is_failure(
            reply,
            500,
            "non-stream HTTP responses returned a stream chunk"@,
        ),
{
    lemma_member_names();
}

/// A whole message of the assistant.
pub open spec fn is_message(item: JsonView, id: Seq<char>, text: Seq<char>) -> bool {
    &&& holds_text(item, "id"@, id)
    &&& holds_text(item, "type"@, "message"@)
    &&& holds_text(item, "status"@, "completed"@)
    &&& holds_text(item, "role"@, "assistant"@)
    &&& item.get("content"@) matches Some(JsonView::Array(parts)) && parts.len() == 1
        && holds_text(parts[0], "type"@, "output_text"@) && holds_text(parts[0], "text"@, text)
}

/// Each event of a stream of the native endpoint tells the text and the tokens of its answer.
pub proof fn generation_events_tell_their_text(response: RouterGenerateResponse, event: Json)
    requires
        call_ensures(generate_stream_event, (&response,), event),
    ensures
        response.body matches RouterGenerateResponseBody::Chunk(chunk) ==> {
            &&& holds_text(event@, "request_id"@, response.request_id@)
            &&& holds_text(event@, "text"@, chunk.text@)
            &&& holds_tokens(event@, "output_ids"@, chunk.token_ids@)
            &&& event@.get("finish_reason"@) is None
            &&& tells_usage(
                event@,
                chunk.prompt_tokens as int,
                chunk.completion_tokens as int,
                chunk.cached_tokens as int,
            )
        },
        response.body matches RouterGenerateResponseBody::Complete(complete) ==> is_generation(
            event@,
            response.request_id@,
            complete,
        ),
        response.body matches RouterGenerateResponseBody::Error(error) ==> event@.get("error"@)
            is Some && holds_text(event@.get("error"@)->0, "message"@, error.message@),
{
    lemma_member_names();
}

/// Each event of a chat stream tells the text that is new. The last tells the reason to end and the
/// counts, and no text.
pub proof fn chat_events_tell_their_text(
    response: RouterGenerateResponse,
    model: &str,
    event: Json,
)
    requires
        call_ensures(chat_stream_event, (&response, model), event),
    ensures
        !(response.body is Error) ==> has_head(
            event@,
            "chatcmpl-"@,
            response.request_id@,
            "chat.completion.chunk"@,
            model@,
        ),
        response.body matches RouterGenerateResponseBody::Chunk(chunk) ==> event@.get("choices"@)
            matches Some(JsonView::Array(choices)) && choices.len() == 1 && holds_integer(
            choices[0],
            "index"@,
            chunk.index as int,
        ) && choices[0].get("delta"@) is Some && holds_text(
            choices[0].get("delta"@)->0,
            "content"@,
            chunk.text@,
        ) && choices[0].get("finish_reason"@) == Some(JsonView::Null) && event@.get("usage"@)
            is None,
        response.body matches RouterGenerateResponseBody::Complete(complete) ==> event@.get(
            "choices"@,
        ) matches Some(JsonView::Array(choices)) && choices.len() == 1 && holds_integer(
            choices[0],
            "index"@,
            complete.index as int,
        ) && choices[0].get("delta"@) is Some && choices[0].get("delta"@)->0.get("content"@)
            is None && holds_text(choices[0], "finish_reason"@, complete.finish_reason@)
            && tells_usage(
            event@,
            complete.prompt_tokens as int,
            complete.completion_tokens as int,
            complete.cached_tokens as int,
        ),
        response.body matches RouterGenerateResponseBody::Error(error) ==> event@.get("error"@)
            is Some && holds_text(event@.get("error"@)->0, "message"@, error.message@),
{
    lemma_member_names();
}

/// Each event of a completion stream tells the text that is new. The last tells the reason to end and
/// the counts, and an empty text.
pub proof fn completion_events_tell_their_text(
    response: RouterGenerateResponse,
    model: &str,
    event: Json,
)
    requires
        call_ensures(completion_stream_event, (&response, model), event),
    ensures
        !(response.body is Error) ==> has_head(
            event@,
            "cmpl-"@,
            response.request_id@,
            "text_completion"@,
            model@,
        ),
        response.body matches RouterGenerateResponseBody::Chunk(chunk) ==> event@.get("choices"@)
            matches Some(JsonView::Array(choices)) && choices.len() == 1 && is_completion_choice(
            choices[0],
            chunk.index as int,
            chunk.text@,
            JsonView::Null,
        ) && event@.get("usage"@) is None,
        response.body matches RouterGenerateResponseBody::Complete(complete) ==> event@.get(
            "choices"@,
        ) matches Some(JsonView::Array(choices)) && choices.len() == 1 && is_completion_choice(
            choices[0],
            complete.index as int,
            Seq::empty(),
            JsonView::Text(complete.finish_reason@),
        ) && tells_usage(
            event@,
            complete.prompt_tokens as int,
            complete.completion_tokens as int,
            complete.cached_tokens as int,
        ),
        response.body matches RouterGenerateResponseBody::Error(error) ==> event@.get("error"@)
            is Some && holds_text(event@.get("error"@)->0, "message"@, error.message@),
{
    lemma_member_names();
    reveal_strlit("");
    assert(""@ =~= Seq::<char>::empty());
}

} // verus!
