//! What the requests read from HTTP payloads promise as a whole: the text, the tokens, the sampling and
//! the routing of a request are those that the payload tells.
use vstd::prelude::*;

use crate::http_inputs::{http_responses_payload_to_router_request, lines_of};
use crate::http_requests::{
    http_chat_payload_to_router_request, http_completion_payload_to_router_request,
    http_generate_payload_to_router_request, http_generate_payload_to_router_text_requests,
    http_generate_payload_to_router_token_requests, HttpChatRequest, HttpCompletionRequest,
    HttpGenerateRequest, HttpResponsesRequest, HttpTextGenerateRequests,
    HttpTokenGenerateRequests,
};
use crate::json::{Json, JsonNumber, JsonView};
use crate::payload::{collected, i32_or, port_or, room_or, text_or};
use crate::payload_laws::{
    is_integer, items_are_read_in_order, lemma_i32, lemma_i32_member, lemma_list, meets_at,
    sampling_as_told, tells_flag, tells_i32, tells_list, tells_number,
};
use crate::router::{RouterDisaggregatedParams, RouterSamplingParams};

verus! {

/// A flag is the member `key`, and off where the member is missing.
pub open spec fn tells_switch(payload: JsonView, key: Seq<char>, on: bool) -> bool {
    match payload.get(key) {
        None => !on,
        Some(JsonView::Bool(flag)) => on == flag,
        Some(_) => false,
    }
}

/// A text is the member `key`, and empty where that is no text.
pub open spec fn tells_text(payload: JsonView, key: Seq<char>, text: Seq<char>) -> bool {
    match payload.get(key) {
        Some(JsonView::Text(told)) => text == told,
        _ => text.len() == 0,
    }
}

/// The rank that a request is routed to: the newer member goes before the older one, and it is the first
/// rank where neither is there.
pub open spec fn tells_rank(payload: JsonView, rank: i32) -> bool {
    match payload.get("routed_dp_rank"@) {
        Some(member) => is_integer(member, rank as int),
        None => match payload.get("data_parallel_rank"@) {
            Some(member) => is_integer(member, rank as int),
            None => rank == 0,
        },
    }
}

/// The sampling of a request is that of the payload.
pub open spec fn tells_sampling(payload: JsonView, params: Option<RouterSamplingParams>) -> bool {
    match payload.get("sampling_params"@) {
        None => params is None,
        Some(value) => params is Some && sampling_as_told(value, params->0),
    }
}

/// The meeting of a request is that of the payload.
pub open spec fn tells_meeting_place(
    payload: JsonView,
    params: Option<RouterDisaggregatedParams>,
) -> bool {
    if payload.get("bootstrap_host"@) is Some || payload.get("bootstrap_port"@) is Some
        || payload.get("bootstrap_room"@) is Some {
        params is Some && meets_at(payload, params->0)
    } else {
        match payload.get("disaggregated_params"@) {
            None => params is None,
            Some(value) => params is Some && meets_at(value, params->0),
        }
    }
}

/// What a payload tells of the routing of a single request.
pub open spec fn tells_routing(
    payload: JsonView,
    request_id: Seq<char>,
    meeting: Option<RouterDisaggregatedParams>,
    stream: bool,
    rank: i32,
) -> bool {
    &&& tells_text(payload, "request_id"@, request_id)
    &&& tells_meeting_place(payload, meeting)
    &&& tells_switch(payload, "stream"@, stream)
    &&& tells_rank(payload, rank)
}

/// The text of a request of a batch: that of all, or the one at its place, or empty where none is told.
pub open spec fn shares_text(payload: JsonView, key: Seq<char>, i: int, text: Seq<char>) -> bool {
    match payload.get(key) {
        None => text.len() == 0,
        Some(JsonView::Text(told)) => text == told,
        Some(JsonView::Array(items)) => 0 <= i < items.len() && items[i] == JsonView::Text(text),
        Some(_) => false,
    }
}

/// The number of a request of a batch: that of all, or the one at its place.
pub open spec fn shares_integer(member: JsonView, i: int, n: int) -> bool {
    is_integer(member, n) || (member matches JsonView::Array(items) && 0 <= i < items.len()
        && is_integer(items[i], n))
}

/// The rank of a request of a batch.
pub open spec fn shares_rank(payload: JsonView, i: int, rank: i32) -> bool {
    match payload.get("routed_dp_rank"@) {
        Some(member) => shares_integer(member, i, rank as int),
        None => match payload.get("data_parallel_rank"@) {
            Some(member) => shares_integer(member, i, rank as int),
            None => rank == 0,
        },
    }
}

/// The meeting of a request of a batch.
pub open spec fn shares_meeting(
    payload: JsonView,
    i: int,
    params: Option<RouterDisaggregatedParams>,
) -> bool {
    if payload.get("bootstrap_host"@) is Some || payload.get("bootstrap_port"@) is Some
        || payload.get("bootstrap_room"@) is Some {
        &&& params is Some
        &&& shares_text(payload, "bootstrap_host"@, i, params->0.bootstrap_host@)
        &&& payload.get("bootstrap_host"@) is Some
        &&& payload.get("bootstrap_port"@) is Some
        &&& shares_integer(
            payload.get("bootstrap_port"@)->0,
            i,
            params->0.bootstrap_port as int,
        )
        &&& payload.get("bootstrap_room"@) is Some
        &&& shares_integer(
            payload.get("bootstrap_room"@)->0,
            i,
            params->0.bootstrap_room as int,
        )
    } else {
        tells_meeting_place(payload, params)
    }
}

/// What a payload tells of the routing of a request of a batch.
pub open spec fn shares_routing(
    payload: JsonView,
    i: int,
    request_id: Seq<char>,
    meeting: Option<RouterDisaggregatedParams>,
    stream: bool,
    rank: i32,
) -> bool {
    &&& shares_text(payload, "request_id"@, i, request_id)
    &&& shares_meeting(payload, i, meeting)
    &&& tells_switch(payload, "stream"@, stream)
    &&& shares_rank(payload, i, rank)
}

proof fn lemma_texts(value: JsonView, field: Seq<char>, n: nat)
    ensures
        crate::payload::batch_texts(value, field, n) matches Ok(list) ==> list.len() == n
            && forall|i: int|
            0 <= i < n ==> (value == JsonView::Text(#[trigger] list[i]) || (value
                matches JsonView::Array(items) && i < items.len() && items[i] == JsonView::Text(
                list[i],
            ))),
{
    if let JsonView::Array(items) = value {
        let read = |item: JsonView| text_or(item, field + " entries must be strings"@);
        items_are_read_in_order(items, read);
        if crate::payload::batch_texts(value, field, n) is Ok {
            let list = collected(items, read)->Ok_0;
            assert forall|i: int| 0 <= i < n implies items[i] == JsonView::Text(
                #[trigger] list[i],
            ) by {
                assert(read(items[i]) == Ok::<Seq<char>, Seq<char>>(list[i]));
            }
        }
    }
}

proof fn lemma_shared_texts(payload: JsonView, field: Seq<char>, n: nat)
    ensures
        crate::payload::optional_texts_in(payload, field, n) matches Ok(list) ==> list.len() == n
            && forall|i: int| 0 <= i < n ==> shares_text(payload, field, i, #[trigger] list[i]),
        crate::payload::required_texts_in(payload, field, n) matches Ok(list) ==> list.len() == n
            && payload.get(field) is Some && forall|i: int|
            0 <= i < n ==> shares_text(payload, field, i, #[trigger] list[i]),
{
    if payload.get(field) is Some {
        lemma_texts(payload.get(field)->0, field, n);
    }
}

proof fn lemma_shared_i32s(payload: JsonView, field: Seq<char>, n: nat)
    ensures
        crate::payload::i32s_in(payload, field, n) matches Ok(list) ==> list.len() == n && forall|
            i: int,
        |
            0 <= i < n ==> match payload.get(field) {
                Some(member) => shares_integer(member, i, #[trigger] list[i] as int),
                None => list[i] == 0,
            },
{
    if let Some(value) = payload.get(field) {
        lemma_i32(value);
        if let JsonView::Array(items) = value {
            let read = |item: JsonView|
                i32_or(
                    item,
                    field + " entries must be integers"@,
                    field + " entry is out of i32 range"@,
                );
            items_are_read_in_order(items, read);
            if crate::payload::i32s_in(payload, field, n) is Ok {
                let list = collected(items, read)->Ok_0;
                assert forall|i: int| 0 <= i < n implies shares_integer(
                    value,
                    i,
                    #[trigger] list[i] as int,
                ) by {
                    lemma_i32(items[i]);
                    assert(read(items[i]) == Ok::<i32, Seq<char>>(list[i]));
                }
            }
        }
    }
}

proof fn lemma_shared_ports(payload: JsonView, field: Seq<char>, n: nat)
    ensures
        crate::payload::ports_in(payload, field, n) matches Ok(list) ==> list.len() == n
            && payload.get(field) is Some && forall|i: int|
            0 <= i < n ==> shares_integer(payload.get(field)->0, i, #[trigger] list[i] as int),
        crate::payload::rooms_in(payload, field, n) matches Ok(list) ==> list.len() == n
            && payload.get(field) is Some && forall|i: int|
            0 <= i < n ==> shares_integer(payload.get(field)->0, i, #[trigger] list[i] as int),
{
    if let Some(JsonView::Array(items)) = payload.get(field) {
        let port = |item: JsonView| port_or(item, field);
        let room = |item: JsonView| room_or(item, field);
        items_are_read_in_order(items, port);
        items_are_read_in_order(items, room);
        if crate::payload::ports_in(payload, field, n) is Ok {
            let list = collected(items, port)->Ok_0;
            assert forall|i: int| 0 <= i < n implies shares_integer(
                payload.get(field)->0,
                i,
                #[trigger] list[i] as int,
            ) by {
                assert(port(items[i]) == Ok::<u16, Seq<char>>(list[i]));
            }
        }
        if crate::payload::rooms_in(payload, field, n) is Ok {
            let list = collected(items, room)->Ok_0;
            assert forall|i: int| 0 <= i < n implies shares_integer(
                payload.get(field)->0,
                i,
                #[trigger] list[i] as int,
            ) by {
                assert(room(items[i]) == Ok::<u64, Seq<char>>(list[i]));
            }
        }
    }
}

proof fn lemma_sampling(payload: JsonView, params: Option<RouterSamplingParams>)
    requires
        crate::payload::sampling_in(payload) == Ok::<Option<crate::router::Sampling>, Seq<char>>(
            crate::router::optional_sampling(params),
        ),
    ensures
        tells_sampling(payload, params),
{
    if let Some(value) = payload.get("sampling_params"@) {
        lemma_i32_member(value, "max_new_tokens"@);
        lemma_i32_member(value, "top_k"@);
        lemma_i32_member(value, "stop_token_id"@);
        lemma_i32_member(value, "n"@);
        lemma_i32_member(value, "best_of"@);
        lemma_list(value, "stop_token_ids"@);
    }
}

proof fn lemma_single_routing(
    payload: JsonView,
    request_id: Seq<char>,
    meeting: Option<RouterDisaggregatedParams>,
    stream: bool,
    rank: i32,
)
    requires
        request_id == crate::payload::text_or_empty(payload, "request_id"@),
        crate::payload::meeting_in(payload) == Ok::<Option<crate::router::Meeting>, Seq<char>>(
            crate::router::optional_meeting(meeting),
        ),
        crate::payload::flag_in(payload, "stream"@) is Ok,
        stream == crate::http_requests::or_default(
            crate::payload::flag_in(payload, "stream"@)->Ok_0,
            false,
        ),
        crate::payload::rank_in(payload) is Ok,
        rank == crate::http_requests::or_default(
            crate::payload::rank_in(payload)->Ok_0,
            0,
        ),
    ensures
        tells_routing(payload, request_id, meeting, stream, rank),
{
    lemma_i32_member(payload, "routed_dp_rank"@);
    lemma_i32_member(payload, "data_parallel_rank"@);
}

proof fn lemma_shared_routing(
    payload: JsonView,
    n: nat,
    i: int,
    request_id: Seq<char>,
    meeting: Option<RouterDisaggregatedParams>,
    stream: bool,
    rank: i32,
)
    requires
        0 <= i < n,
        crate::payload::optional_texts_in(payload, "request_id"@, n) is Ok,
        crate::payload::ranks_in(payload, n) is Ok,
        crate::payload::meetings_in(payload, n) is Ok,
        request_id == crate::payload::optional_texts_in(payload, "request_id"@, n)->Ok_0[i],
        rank == crate::payload::ranks_in(payload, n)->Ok_0[i],
        crate::router::optional_meeting(meeting) == crate::payload::meetings_in(
            payload,
            n,
        )->Ok_0[i],
        crate::payload::flag_in(payload, "stream"@) is Ok,
        stream == crate::http_requests::or_default(
            crate::payload::flag_in(payload, "stream"@)->Ok_0,
            false,
        ),
    ensures
        shares_routing(payload, i, request_id, meeting, stream, rank),
{
    lemma_shared_texts(payload, "request_id"@, n);
    lemma_shared_i32s(payload, "routed_dp_rank"@, n);
    lemma_shared_i32s(payload, "data_parallel_rank"@, n);
    lemma_shared_texts(payload, "bootstrap_host"@, n);
    lemma_shared_ports(payload, "bootstrap_port"@, n);
    lemma_shared_ports(payload, "bootstrap_room"@, n);
}

/// A text request of the native endpoint holds the text, the sampling and the routing that the payload
/// tells; where the payload has several texts, there is one request for each, in order.
pub proof fn text_requests_hold_what_the_payload_tells(
    payload: Json,
    requests: Result<HttpTextGenerateRequests, String>,
)
    requires
        call_ensures(http_generate_payload_to_router_text_requests, (&payload,), requests),
    ensures
        requests matches Ok(HttpTextGenerateRequests::Single(request)) ==> {
            &&& payload@.get("text"@) == Some(JsonView::Text(request.text@))
            &&& tells_sampling(payload@, request.sampling_params)
            &&& tells_routing(
                payload@,
                request.request_id@,
                request.disaggregated_params,
                request.stream,
                request.data_parallel_rank,
            )
        },
        requests matches Ok(HttpTextGenerateRequests::Batch(list)) ==> {
            &&& payload@.get("text"@) is Some
            &&& payload@.get("text"@)->0 is Array
            &&& list@.len() == payload@.get("text"@)->0->Array_0.len()
            &&& forall|i: int|
                0 <= i < list@.len() ==> {
                    let request = #[trigger] list@[i];
                    &&& payload@.get("text"@)->0->Array_0[i] == JsonView::Text(request.text@)
                    &&& tells_sampling(payload@, request.sampling_params)
                    &&& shares_routing(
                        payload@,
                        i,
                        request.request_id@,
                        request.disaggregated_params,
                        request.stream,
                        request.data_parallel_rank,
                    )
                }
        },
{
    if let Ok(HttpTextGenerateRequests::Single(request)) = requests {
        lemma_sampling(payload@, request.sampling_params);
        lemma_single_routing(
            payload@,
            request.request_id@,
            request.disaggregated_params,
            request.stream,
            request.data_parallel_rank,
        );
    }
    if let Ok(HttpTextGenerateRequests::Batch(list)) = requests {
        let items = payload@.get("text"@)->0->Array_0;
        let read = |item: JsonView| text_or(item, "text entries must be strings"@);
        items_are_read_in_order(items, read);
        let inputs = collected(items, read)->Ok_0;
        let told = crate::router::text_requests(list@);
        assert(told.len() == list@.len());
        assert(told.len() == inputs.len());
        assert forall|i: int| 0 <= i < list@.len() implies {
            let request = #[trigger] list@[i];
            &&& items[i] == JsonView::Text(request.text@)
            &&& tells_sampling(payload@, request.sampling_params)
            &&& shares_routing(
                payload@,
                i,
                request.request_id@,
                request.disaggregated_params,
                request.stream,
                request.data_parallel_rank,
            )
        } by {
            let request = list@[i];
            assert(told[i] == request@);
            assert(read(items[i]) == Ok::<Seq<char>, Seq<char>>(inputs[i]));
            lemma_sampling(payload@, request.sampling_params);
            lemma_shared_routing(
                payload@,
                inputs.len(),
                i,
                request.request_id@,
                request.disaggregated_params,
                request.stream,
                request.data_parallel_rank,
            );
        }
    }
}

/// Tokens are those of an array.
pub open spec fn are_tokens(value: JsonView, tokens: Seq<u32>) -> bool {
    value matches JsonView::Array(items) && items.len() == tokens.len() && forall|k: int|
        0 <= k < items.len() ==> #[trigger] items[k] == JsonView::Number(
            JsonNumber::Unsigned(tokens[k] as u64),
        )
}

proof fn lemma_tokens(value: JsonView)
    ensures
        crate::http_requests::tokens_of(value) matches Ok(tokens) ==> are_tokens(value, tokens),
{
    if let JsonView::Array(items) = value {
        let read = |item: JsonView|
            crate::payload::u32_or(
                item,
                "input_ids entries must be unsigned integers"@,
                "input_ids entry is out of u32 range"@,
            );
        items_are_read_in_order(items, read);
        if let Ok(tokens) = crate::http_requests::tokens_of(value) {
            assert forall|k: int| 0 <= k < items.len() implies #[trigger] items[k]
                == JsonView::Number(JsonNumber::Unsigned(tokens[k] as u64)) by {
                assert(read(items[k]) == Ok::<u32, Seq<char>>(tokens[k]));
            }
        }
    }
}

/// A request of the native endpoint that gives tokens holds those tokens, and the text, the sampling and
/// the routing that the payload tells; where the payload has several lists of tokens, there is one
/// request for each, in order.
pub proof fn token_requests_hold_what_the_payload_tells(
    payload: Json,
    requests: Result<HttpTokenGenerateRequests, String>,
)
    requires
        call_ensures(http_generate_payload_to_router_token_requests, (&payload,), requests),
    ensures
        requests matches Ok(HttpTokenGenerateRequests::Single(request)) ==> {
            &&& payload@.get("input_ids"@) is Some
            &&& request.tokenized is Some
            &&& are_tokens(payload@.get("input_ids"@)->0, request.tokenized->0.input_ids@)
            &&& tells_text(payload@, "original_text"@, request.tokenized->0.original_text@)
            &&& tells_sampling(payload@, request.sampling_params)
            &&& tells_routing(
                payload@,
                request.request_id@,
                request.disaggregated_params,
                request.stream,
                request.data_parallel_rank,
            )
        },
        requests matches Ok(HttpTokenGenerateRequests::Batch(list)) ==> {
            &&& payload@.get("input_ids"@) is Some
            &&& payload@.get("input_ids"@)->0 is Array
            &&& list@.len() == payload@.get("input_ids"@)->0->Array_0.len()
            &&& forall|i: int|
                0 <= i < list@.len() ==> {
                    let request = #[trigger] list@[i];
                    &&& request.tokenized is Some
                    &&& are_tokens(
                        payload@.get("input_ids"@)->0->Array_0[i],
                        request.tokenized->0.input_ids@,
                    )
                    &&& shares_text(
                        payload@,
                        "original_text"@,
                        i,
                        request.tokenized->0.original_text@,
                    )
                    &&& tells_sampling(payload@, request.sampling_params)
                    &&& shares_routing(
                        payload@,
                        i,
                        request.request_id@,
                        request.disaggregated_params,
                        request.stream,
                        request.data_parallel_rank,
                    )
                }
        },
{
    if let Ok(HttpTokenGenerateRequests::Single(request)) = requests {
        lemma_tokens(payload@.get("input_ids"@)->0);
        lemma_sampling(payload@, request.sampling_params);
        lemma_single_routing(
            payload@,
            request.request_id@,
            request.disaggregated_params,
            request.stream,
            request.data_parallel_rank,
        );
    }
    if let Ok(HttpTokenGenerateRequests::Batch(list)) = requests {
        let items = payload@.get("input_ids"@)->0->Array_0;
        let read = |item: JsonView| crate::http_requests::tokens_of(item);
        items_are_read_in_order(items, read);
        let inputs = collected(items, read)->Ok_0;
        let told = crate::router::token_requests(list@);
        assert(told.len() == list@.len());
        assert(told.len() == inputs.len());
        lemma_shared_texts(payload@, "original_text"@, inputs.len());
        assert forall|i: int| 0 <= i < list@.len() implies {
            let request = #[trigger] list@[i];
            &&& request.tokenized is Some
            &&& are_tokens(items[i], request.tokenized->0.input_ids@)
            &&& shares_text(
                payload@,
                "original_text"@,
                i,
                request.tokenized->0.original_text@,
            )
            &&& tells_sampling(payload@, request.sampling_params)
            &&& shares_routing(
                payload@,
                i,
                request.request_id@,
                request.disaggregated_params,
                request.stream,
                request.data_parallel_rank,
            )
        } by {
            let request = list@[i];
            assert(told[i] == request@);
            assert(read(items[i]) == Ok::<Seq<u32>, Seq<char>>(inputs[i]));
            lemma_tokens(items[i]);
            lemma_sampling(payload@, request.sampling_params);
            lemma_shared_routing(
                payload@,
                inputs.len(),
                i,
                request.request_id@,
                request.disaggregated_params,
                request.stream,
                request.data_parallel_rank,
            );
        }
    }
}

/// A payload of the native endpoint is read as tokens where it gives tokens, and as text otherwise.
pub proof fn tokens_go_before_text(
    payload: Json,
    request: Result<HttpGenerateRequest, String>,
)
    requires
        call_ensures(http_generate_payload_to_router_request, (&payload,), request),
        request is Ok,
    ensures
        request->Ok_0 is Tokenized || request->Ok_0 is BatchTokenized <==> payload@.get(
            "input_ids"@,
        ) is Some,
        request matches Ok(HttpGenerateRequest::Text(text)) ==> payload@.get("text"@) == Some(
            JsonView::Text(text.text@),
        ),
{
}

/// A number of an OpenAI request is its own member, or else that of the sampling it gives.
pub open spec fn number_told(
    payload: JsonView,
    key: Seq<char>,
    field: Option<JsonNumber>,
) -> bool {
    if payload.get(key) is Some {
        tells_number(payload, key, field)
    } else {
        match payload.get("sampling_params"@) {
            Some(value) => tells_number(value, key, field),
            None => field is None,
        }
    }
}

/// An integer of an OpenAI request is its own member of one name, or else that of the sampling it gives
/// of another.
pub open spec fn integer_told(
    payload: JsonView,
    key: Seq<char>,
    inner: Seq<char>,
    field: Option<i32>,
) -> bool {
    if payload.get(key) is Some {
        tells_i32(payload, key, field)
    } else {
        inner_integer_told(payload, inner, field)
    }
}

/// An integer of an OpenAI request is that of the sampling it gives.
pub open spec fn inner_integer_told(
    payload: JsonView,
    inner: Seq<char>,
    field: Option<i32>,
) -> bool {
    match payload.get("sampling_params"@) {
        Some(value) => tells_i32(value, inner, field),
        None => field is None,
    }
}

/// The sampling of an OpenAI request, but for its limit: each field is the member of its name.
pub open spec fn openai_told(payload: JsonView, params: RouterSamplingParams) -> bool {
    &&& number_told(payload, "temperature"@, params.temperature)
    &&& number_told(payload, "top_p"@, params.top_p)
    &&& number_told(payload, "min_p"@, params.min_p)
    &&& number_told(payload, "frequency_penalty"@, params.frequency_penalty)
    &&& number_told(payload, "presence_penalty"@, params.presence_penalty)
    &&& number_told(payload, "repetition_penalty"@, params.repetition_penalty)
    &&& integer_told(payload, "top_k"@, "top_k"@, params.top_k)
    &&& if payload.get("ignore_eos"@) is Some {
        tells_flag(payload, "ignore_eos"@, params.ignore_eos)
    } else {
        match payload.get("sampling_params"@) {
            Some(value) => tells_flag(value, "ignore_eos"@, params.ignore_eos),
            None => params.ignore_eos is None,
        }
    }
    &&& if payload.get("stop_token_ids"@) is Some {
        tells_list(payload, "stop_token_ids"@, params.stop_token_ids@)
    } else {
        match payload.get("sampling_params"@) {
            Some(value) => if value.get("stop_token_ids"@) is Some {
                tells_list(value, "stop_token_ids"@, params.stop_token_ids@)
            } else {
                params.stop_token_ids@.len() == 0
            },
            None => params.stop_token_ids@.len() == 0,
        }
    }
    &&& inner_integer_told(payload, "stop_token_id"@, params.stop_token_id)
    &&& inner_integer_told(payload, "n"@, params.n)
    &&& inner_integer_told(payload, "best_of"@, params.best_of)
}

proof fn lemma_openai(
    payload: JsonView,
    params: RouterSamplingParams,
    limit: Option<i32>,
)
    requires
        crate::http_requests::openai_sampling_in(payload) is Ok,
        params@ == crate::http_requests::with_limit(
            crate::http_requests::openai_sampling_in(payload)->Ok_0,
            limit,
        ),
    ensures
        openai_told(payload, params),
        limit is Some ==> params.max_new_tokens == limit,
        limit is None ==> inner_integer_told(
            payload,
            "max_new_tokens"@,
            params.max_new_tokens,
        ),
{
    lemma_i32_member(payload, "top_k"@);
    lemma_list(payload, "stop_token_ids"@);
    if let Some(value) = payload.get("sampling_params"@) {
        lemma_i32_member(value, "max_new_tokens"@);
        lemma_i32_member(value, "top_k"@);
        lemma_i32_member(value, "stop_token_id"@);
        lemma_i32_member(value, "n"@);
        lemma_i32_member(value, "best_of"@);
        lemma_list(value, "stop_token_ids"@);
    }
}

/// A completion request holds the prompt of the payload, its sampling, with the limit it gives, and its
/// routing; where the payload has several prompts, there is one request for each, in order. Only the
/// model that is served is asked for.
pub proof fn completion_requests_hold_what_the_payload_tells(
    payload: Json,
    served: &str,
    request: Result<HttpCompletionRequest, String>,
)
    requires
        call_ensures(http_completion_payload_to_router_request, (&payload, served), request),
    ensures
        request is Ok ==> payload@.get("model"@) == Some(JsonView::Text(served@)),
        request matches Ok(HttpCompletionRequest::Single(asked)) ==> {
            &&& payload@.get("prompt"@) == Some(JsonView::Text(asked.text@))
            &&& asked.sampling_params is Some
            &&& openai_told(payload@, asked.sampling_params->0)
            &&& integer_told(
                payload@,
                "max_tokens"@,
                "max_new_tokens"@,
                asked.sampling_params->0.max_new_tokens,
            )
            &&& tells_routing(
                payload@,
                asked.request_id@,
                asked.disaggregated_params,
                asked.stream,
                asked.data_parallel_rank,
            )
        },
        request matches Ok(HttpCompletionRequest::Batch(list)) ==> {
            &&& payload@.get("prompt"@) is Some
            &&& payload@.get("prompt"@)->0 is Array
            &&& list@.len() == payload@.get("prompt"@)->0->Array_0.len()
            &&& list@.len() > 0
            &&& forall|i: int|
                0 <= i < list@.len() ==> {
                    let asked = #[trigger] list@[i];
                    &&& payload@.get("prompt"@)->0->Array_0[i] == JsonView::Text(asked.text@)
                    &&& asked.sampling_params is Some
                    &&& openai_told(payload@, asked.sampling_params->0)
                    &&& integer_told(
                        payload@,
                        "max_tokens"@,
                        "max_new_tokens"@,
                        asked.sampling_params->0.max_new_tokens,
                    )
                    &&& shares_routing(
                        payload@,
                        i,
                        asked.request_id@,
                        asked.disaggregated_params,
                        asked.stream,
                        asked.data_parallel_rank,
                    )
                }
        },
{
    lemma_i32_member(payload@, "max_tokens"@);
    let limit = crate::payload::i32_in(payload@, "max_tokens"@)->Ok_0;
    if let Ok(HttpCompletionRequest::Single(asked)) = request {
        lemma_openai(payload@, asked.sampling_params->0, limit);
        lemma_single_routing(
            payload@,
            asked.request_id@,
            asked.disaggregated_params,
            asked.stream,
            asked.data_parallel_rank,
        );
    }
    if let Ok(HttpCompletionRequest::Batch(list)) = request {
        let items = payload@.get("prompt"@)->0->Array_0;
        let read = |item: JsonView| text_or(item, "prompt array entries must be strings"@);
        items_are_read_in_order(items, read);
        let inputs = collected(items, read)->Ok_0;
        let told = crate::router::text_requests(list@);
        assert(told.len() == list@.len());
        assert(told.len() == inputs.len());
        assert forall|i: int| 0 <= i < list@.len() implies {
            let asked = #[trigger] list@[i];
            &&& items[i] == JsonView::Text(asked.text@)
            &&& asked.sampling_params is Some
            &&& openai_told(payload@, asked.sampling_params->0)
            &&& integer_told(
                payload@,
                "max_tokens"@,
                "max_new_tokens"@,
                asked.sampling_params->0.max_new_tokens,
            )
            &&& shares_routing(
                payload@,
                i,
                asked.request_id@,
                asked.disaggregated_params,
                asked.stream,
                asked.data_parallel_rank,
            )
        } by {
            let asked = list@[i];
            assert(told[i] == asked@);
            assert(read(items[i]) == Ok::<Seq<char>, Seq<char>>(inputs[i]));
            lemma_openai(payload@, asked.sampling_params->0, limit);
            lemma_shared_routing(
                payload@,
                inputs.len(),
                i,
                asked.request_id@,
                asked.disaggregated_params,
                asked.stream,
                asked.data_parallel_rank,
            );
        }
    }
}

/// The limit of a chat: the newer member goes before the older one, and that before the sampling.
pub open spec fn chat_limit_told(payload: JsonView, limit: Option<i32>) -> bool {
    if payload.get("max_completion_tokens"@) is Some {
        tells_i32(payload, "max_completion_tokens"@, limit)
    } else {
        integer_told(payload, "max_tokens"@, "max_new_tokens"@, limit)
    }
}

/// A chat request holds the prompt, the sampling of the payload, with the limit it gives, and its
/// routing; where the payload asks for several answers, there are as many requests, with the same
/// prompt. Only the model that is served is asked for.
pub proof fn chat_requests_hold_what_the_payload_tells(
    payload: Json,
    served: &str,
    prompt: String,
    request: Result<HttpChatRequest, String>,
)
    requires
        call_ensures(http_chat_payload_to_router_request, (&payload, served, prompt), request),
    ensures
        request is Ok ==> payload@.get("model"@) == Some(JsonView::Text(served@)),
        request matches Ok(HttpChatRequest::Single(asked)) ==> {
            &&& payload@.get("n"@) matches Some(count) ==> is_integer(count, 1)
            &&& asked.text@ == prompt@
            &&& asked.sampling_params is Some
            &&& openai_told(payload@, asked.sampling_params->0)
            &&& chat_limit_told(payload@, asked.sampling_params->0.max_new_tokens)
            &&& tells_routing(
                payload@,
                asked.request_id@,
                asked.disaggregated_params,
                asked.stream,
                asked.data_parallel_rank,
            )
        },
        request matches Ok(HttpChatRequest::Batch(list)) ==> {
            &&& payload@.get("n"@) is Some
            &&& is_integer(payload@.get("n"@)->0, list@.len() as int)
            &&& list@.len() > 1
            &&& forall|i: int|
                0 <= i < list@.len() ==> {
                    let asked = #[trigger] list@[i];
                    &&& asked.text@ == prompt@
                    &&& asked.sampling_params is Some
                    &&& openai_told(payload@, asked.sampling_params->0)
                    &&& chat_limit_told(payload@, asked.sampling_params->0.max_new_tokens)
                    &&& shares_routing(
                        payload@,
                        i,
                        asked.request_id@,
                        asked.disaggregated_params,
                        asked.stream,
                        asked.data_parallel_rank,
                    )
                }
        },
{
    lemma_i32_member(payload@, "max_tokens"@);
    lemma_i32_member(payload@, "max_completion_tokens"@);
    lemma_i32_member(payload@, "n"@);
    let newer = crate::payload::i32_in(payload@, "max_completion_tokens"@)->Ok_0;
    let older = crate::payload::i32_in(payload@, "max_tokens"@)->Ok_0;
    let limit = if newer is Some {
        newer
    } else {
        older
    };
    if let Ok(HttpChatRequest::Single(asked)) = request {
        lemma_openai(payload@, asked.sampling_params->0, limit);
        lemma_single_routing(
            payload@,
            asked.request_id@,
            asked.disaggregated_params,
            asked.stream,
            asked.data_parallel_rank,
        );
    }
    if let Ok(HttpChatRequest::Batch(list)) = request {
        let told = crate::router::text_requests(list@);
        assert(told.len() == list@.len());
        let n = list@.len();
        assert forall|i: int| 0 <= i < list@.len() implies {
            let asked = #[trigger] list@[i];
            &&& asked.text@ == prompt@
            &&& asked.sampling_params is Some
            &&& openai_told(payload@, asked.sampling_params->0)
            &&& chat_limit_told(payload@, asked.sampling_params->0.max_new_tokens)
            &&& shares_routing(
                payload@,
                i,
                asked.request_id@,
                asked.disaggregated_params,
                asked.stream,
                asked.data_parallel_rank,
            )
        } by {
            let asked = list@[i];
            assert(told[i] == asked@);
            lemma_openai(payload@, asked.sampling_params->0, limit);
            lemma_shared_routing(
                payload@,
                n,
                i,
                asked.request_id@,
                asked.disaggregated_params,
                asked.stream,
                asked.data_parallel_rank,
            );
        }
    }
}

/// Texts on lines of their own.
pub open spec fn on_lines(list: Seq<Seq<char>>) -> Seq<char>
    decreases list.len(),
{
    if list.len() == 0 {
        Seq::empty()
    } else if list.len() == 1 {
        list[0]
    } else {
        list[0] + "\n"@ + on_lines(list.skip(1))
    }
}

proof fn lemma_lines(list: Seq<Seq<char>>)
    ensures
        lines_of(list) == on_lines(list),
    decreases list.len(),
{
    if list.len() > 1 {
        lemma_lines(list.skip(1));
        lemma_lines(list.drop_last());
        lemma_lines(list.skip(1).drop_last());
        assert(list.skip(1).drop_last() =~= list.drop_last().skip(1));
        assert(list.skip(1).last() == list.last());
        if list.len() == 2 {
            assert(list.drop_last()[0] == list[0]);
            assert(list.skip(1)[0] == list[1]);
        } else {
            let middle = list.drop_last().skip(1);
            assert(on_lines(list.drop_last()) == list[0] + "\n"@ + on_lines(middle));
            assert(lines_of(list.skip(1)) == lines_of(middle) + "\n"@ + list.last());
            assert(list[0] + "\n"@ + on_lines(middle) + "\n"@ + list.last() =~= list[0] + "\n"@
                + (on_lines(middle) + "\n"@ + list.last()));
        }
    }
}

/// The text of a responses payload: its input, or the texts of its input on lines of their own.
pub open spec fn is_input(input: JsonView, text: Seq<char>) -> bool {
    match input {
        JsonView::Text(told) => text == told,
        JsonView::Array(items) => items.len() > 0 && ((forall|i: int|
            0 <= i < items.len() ==> (#[trigger] items[i]) is Text) ==> text == on_lines(
            items.map_values(|item: JsonView| item->Text_0),
        )),
        _ => false,
    }
}

/// A responses request holds the input of the payload, behind its instructions on a line of their own
/// where it has some, its sampling, with the limit it gives, and its routing. Only the model that is
/// served is asked for.
pub proof fn responses_requests_hold_what_the_payload_tells(
    payload: Json,
    served: &str,
    request: Result<HttpResponsesRequest, String>,
)
    requires
        call_ensures(http_responses_payload_to_router_request, (&payload, served), request),
        request is Ok,
    ensures
        payload@.get("model"@) == Some(JsonView::Text(served@)),
        request->Ok_0.model@ == served@,
        ({
            let asked = request->Ok_0.request;
            &&& payload@.get("input"@) is Some
            &&& match payload@.get("instructions"@) {
                None => is_input(payload@.get("input"@)->0, asked.text@),
                Some(JsonView::Text(told)) => exists|input: Seq<char>|
                    {
                        &&& #[trigger] is_input(payload@.get("input"@)->0, input)
                        &&& asked.text@ == (if input.len() == 0 {
                            told
                        } else {
                            told + "\n"@ + input
                        })
                    },
                Some(_) => false,
            }
            &&& asked.sampling_params is Some
            &&& openai_told(payload@, asked.sampling_params->0)
            &&& integer_told(
                payload@,
                "max_output_tokens"@,
                "max_new_tokens"@,
                asked.sampling_params->0.max_new_tokens,
            )
            &&& tells_routing(
                payload@,
                asked.request_id@,
                asked.disaggregated_params,
                asked.stream,
                asked.data_parallel_rank,
            )
        }),
{
    lemma_i32_member(payload@, "max_output_tokens"@);
    let limit = crate::payload::i32_in(payload@, "max_output_tokens"@)->Ok_0;
    let asked = request->Ok_0.request;
    lemma_openai(payload@, asked.sampling_params->0, limit);
    lemma_single_routing(
        payload@,
        asked.request_id@,
        asked.disaggregated_params,
        asked.stream,
        asked.data_parallel_rank,
    );
    let input = crate::http_inputs::responses_input_text(payload@)->Ok_0;
    if let JsonView::Array(items) = payload@.get("input"@)->0 {
        let read = |item: JsonView| crate::http_inputs::responses_item_text(item);
        items_are_read_in_order(items, read);
        let list = collected(items, read)->Ok_0;
        lemma_lines(list);
        if forall|i: int| 0 <= i < items.len() ==> (#[trigger] items[i]) is Text {
            let told = items.map_values(|item: JsonView| item->Text_0);
            assert forall|i: int| 0 <= i < list.len() implies list[i] == told[i] by {
                assert(read(items[i]) == Ok::<Seq<char>, Seq<char>>(list[i]));
            }
            assert(list =~= told);
        }
    }
    assert(is_input(payload@.get("input"@)->0, input));
}

} // verus!
