//! What the requests read from HTTP payloads promise: each field is the member of its name.
use vstd::prelude::*;

use crate::json::{Json, JsonNumber, JsonView};
use crate::payload::{
    apply_openai_sampling_params, collected, json_to_disaggregated_params,
    json_to_sampling_params, optional_sampling_params,
};
use crate::router::{RouterDisaggregatedParams, RouterSamplingParams};

verus! {

/// A number is the member `key`, and is missing where the member is.
pub open spec fn tells_number(value: JsonView, key: Seq<char>, field: Option<JsonNumber>) -> bool {
    match value.get(key) {
        None => field is None,
        Some(JsonView::Number(number)) => field == Some(number),
        Some(_) => false,
    }
}

/// An item is the integer `n`.
pub open spec fn is_integer(item: JsonView, n: int) -> bool {
    item == JsonView::Number(JsonNumber::Unsigned(n as u64)) && 0 <= n <= u64::MAX || item
        == JsonView::Number(JsonNumber::Negative(n as i64)) && i64::MIN <= n <= i64::MAX
}

/// An integer is the member `key`, and is missing where the member is.
pub open spec fn tells_i32(value: JsonView, key: Seq<char>, field: Option<i32>) -> bool {
    match value.get(key) {
        None => field is None,
        Some(member) => field is Some && is_integer(member, field->0 as int),
    }
}

/// A flag is the member `key`, and is missing where the member is.
pub open spec fn tells_flag(value: JsonView, key: Seq<char>, field: Option<bool>) -> bool {
    match value.get(key) {
        None => field is None,
        Some(JsonView::Bool(flag)) => field == Some(flag),
        Some(_) => false,
    }
}

/// A list holds the integers of the array `key` in their order.
pub open spec fn tells_list(value: JsonView, key: Seq<char>, list: Seq<i32>) -> bool {
    match value.get(key) {
        None => false,
        Some(JsonView::Array(items)) => list.len() == items.len() && forall|i: int|
            0 <= i < items.len() ==> is_integer(#[trigger] items[i], list[i] as int),
        Some(_) => false,
    }
}

/// A member may be missing, or is a number.
pub open spec fn may_be_number(value: JsonView, key: Seq<char>) -> bool {
    value.get(key) matches Some(member) ==> member is Number
}

/// An item is an integer of 32 bits.
pub open spec fn is_i32(item: JsonView) -> bool {
    exists|n: i32| is_integer(item, n as int)
}

/// A member may be missing, or is an integer of 32 bits.
pub open spec fn may_be_i32(value: JsonView, key: Seq<char>) -> bool {
    value.get(key) matches Some(member) ==> is_i32(member)
}

/// A member may be missing, or is a boolean.
pub open spec fn may_be_flag(value: JsonView, key: Seq<char>) -> bool {
    value.get(key) matches Some(member) ==> member is Bool
}

/// A member may be missing, or is an array of integers of 32 bits.
pub open spec fn may_be_list(value: JsonView, key: Seq<char>) -> bool {
    value.get(key) matches Some(member) ==> member is Array && forall|i: int|
        0 <= i < member->Array_0.len() ==> is_i32(#[trigger] member->Array_0[i])
}

/// Every field of the sampling is the member of the same name.
pub open spec fn sampling_as_told(value: JsonView, params: RouterSamplingParams) -> bool {
    &&& tells_i32(value, "max_new_tokens"@, params.max_new_tokens)
    &&& tells_number(value, "temperature"@, params.temperature)
    &&& tells_number(value, "top_p"@, params.top_p)
    &&& tells_i32(value, "top_k"@, params.top_k)
    &&& tells_number(value, "min_p"@, params.min_p)
    &&& tells_number(value, "frequency_penalty"@, params.frequency_penalty)
    &&& tells_number(value, "presence_penalty"@, params.presence_penalty)
    &&& tells_number(value, "repetition_penalty"@, params.repetition_penalty)
    &&& tells_i32(value, "stop_token_id"@, params.stop_token_id)
    &&& if value.get("stop_token_ids"@) is None {
        params.stop_token_ids@.len() == 0
    } else {
        tells_list(value, "stop_token_ids"@, params.stop_token_ids@)
    }
    &&& tells_flag(value, "ignore_eos"@, params.ignore_eos)
    &&& tells_i32(value, "n"@, params.n)
    &&& tells_i32(value, "best_of"@, params.best_of)
}

/// Every member that sampling is read from is missing or of its type.
pub open spec fn is_sampling(value: JsonView) -> bool {
    &&& value is Object
    &&& may_be_i32(value, "max_new_tokens"@)
    &&& may_be_number(value, "temperature"@)
    &&& may_be_number(value, "top_p"@)
    &&& may_be_i32(value, "top_k"@)
    &&& may_be_number(value, "min_p"@)
    &&& may_be_number(value, "frequency_penalty"@)
    &&& may_be_number(value, "presence_penalty"@)
    &&& may_be_number(value, "repetition_penalty"@)
    &&& may_be_i32(value, "stop_token_id"@)
    &&& may_be_list(value, "stop_token_ids"@)
    &&& may_be_flag(value, "ignore_eos"@)
    &&& may_be_i32(value, "n"@)
    &&& may_be_i32(value, "best_of"@)
}

/// Reading several items succeeds exactly where reading each of them does, and gives what each reads
/// as, in order.
pub proof fn items_are_read_in_order<T>(
    items: Seq<JsonView>,
    read: spec_fn(JsonView) -> Result<T, Seq<char>>,
)
    ensures
        collected(items, read) is Ok <==> forall|i: int|
            0 <= i < items.len() ==> read(#[trigger] items[i]) is Ok,
        collected(items, read) matches Ok(list) ==> list.len() == items.len() && forall|i: int|
            0 <= i < items.len() ==> read(#[trigger] items[i]) == Ok::<T, Seq<char>>(list[i]),
    decreases items.len(),
{
    if items.len() > 0 {
        let front = items.drop_last();
        items_are_read_in_order(front, read);
        assert(forall|i: int| 0 <= i < front.len() ==> front[i] == #[trigger] items[i]);
        if collected(items, read) is Ok {
            let list = collected(items, read)->Ok_0;
            assert forall|i: int| 0 <= i < items.len() implies read(#[trigger] items[i]) == Ok::<
                T,
                Seq<char>,
            >(list[i]) by {
                if i < front.len() {
                    assert(front[i] == items[i]);
                }
            }
        }
        if forall|i: int| 0 <= i < items.len() ==> read(#[trigger] items[i]) is Ok {
            assert forall|i: int| 0 <= i < front.len() implies read(#[trigger] front[i]) is Ok by {
                assert(front[i] == items[i]);
            }
            assert(read(items[items.len() - 1]) is Ok);
        }
    }
}

/// An item is an integer of 32 bits exactly where its integer is in range.
pub proof fn lemma_i32(item: JsonView)
    ensures
        is_i32(item) <==> item.as_integer() is Some && i32::MIN <= item.as_integer()->0 <= i32::MAX,
        item.as_integer() is Some ==> is_integer(item, item.as_integer()->0),
        forall|n: i32| is_integer(item, n as int) ==> item.as_integer() == Some(n as int),
{
    if item.as_integer() is Some && i32::MIN <= item.as_integer()->0 <= i32::MAX {
        let n = item.as_integer()->0 as i32;
        assert(is_integer(item, n as int));
    }
}

/// What a list member says.
pub proof fn lemma_list(value: JsonView, key: Seq<char>)
    ensures
        crate::payload::i32_list_in(value, key) is Ok <==> may_be_list(value, key),
        crate::payload::i32_list_in(value, key) matches Ok(found) ==> match found {
            Some(list) => tells_list(value, key, list),
            None => value.get(key) is None,
        },
{
    if let Some(JsonView::Array(items)) = value.get(key) {
        let read = |item: JsonView|
            crate::payload::i32_or(
                item,
                key + " must be an integer array"@,
                key + " contains an integer too large for i32"@,
            );
        items_are_read_in_order(items, read);
        assert forall|i: int| 0 <= i < items.len() implies (read(#[trigger] items[i]) is Ok <==> is_i32(
            items[i],
        )) by {
            lemma_i32(items[i]);
        }
        if collected(items, read) is Ok {
            let list = collected(items, read)->Ok_0;
            assert forall|i: int| 0 <= i < items.len() implies is_integer(
                #[trigger] items[i],
                list[i] as int,
            ) by {
                lemma_i32(items[i]);
                assert(read(items[i]) == Ok::<i32, Seq<char>>(list[i]));
            }
        }
    }
}

/// What an integer member says.
pub proof fn lemma_i32_member(value: JsonView, key: Seq<char>)
    ensures
        crate::payload::i32_in(value, key) is Ok <==> may_be_i32(value, key),
        crate::payload::i32_in(value, key) matches Ok(field) ==> tells_i32(value, key, field),
{
    if let Some(member) = value.get(key) {
        lemma_i32(member);
    }
}

/// Sampling is read from every object whose members are of their types, whatever else it holds, and
/// each of its fields is the member of the same name.
pub proof fn sampling_fields_are_their_members(
    value: Json,
    sampling: Result<RouterSamplingParams, String>,
)
    requires
        call_ensures(json_to_sampling_params, (&value,), sampling),
    ensures
        sampling is Ok <==> is_sampling(value@),
        sampling matches Ok(params) ==> sampling_as_told(value@, params),
        sampling matches Ok(params) ==> (value@.get("temperature"@) matches Some(
            JsonView::Number(number),
        ) ==> params.temperature == Some(number)),
        sampling matches Ok(params) ==> (value@.get("top_p"@) matches Some(
            JsonView::Number(number),
        ) ==> params.top_p == Some(number)),
{
    lemma_i32_member(value@, "max_new_tokens"@);
    lemma_i32_member(value@, "top_k"@);
    lemma_i32_member(value@, "stop_token_id"@);
    lemma_i32_member(value@, "n"@);
    lemma_i32_member(value@, "best_of"@);
    lemma_list(value@, "stop_token_ids"@);
}

/// A field of the sampling depends on the member of its name alone: where two objects agree on a
/// member, what is read from them agrees on its field, however they differ otherwise.
pub proof fn members_change_their_fields_alone(
    value: Json,
    other: Json,
    sampling: Result<RouterSamplingParams, String>,
    other_sampling: Result<RouterSamplingParams, String>,
)
    requires
        call_ensures(json_to_sampling_params, (&value,), sampling),
        call_ensures(json_to_sampling_params, (&other,), other_sampling),
        sampling is Ok,
        other_sampling is Ok,
    ensures
        ({
            let a = sampling->Ok_0;
            let b = other_sampling->Ok_0;
            let same = |key: Seq<char>| value@.get(key) == other@.get(key);
            &&& same("max_new_tokens"@) ==> a.max_new_tokens == b.max_new_tokens
            &&& same("temperature"@) ==> a.temperature == b.temperature
            &&& same("top_p"@) ==> a.top_p == b.top_p
            &&& same("top_k"@) ==> a.top_k == b.top_k
            &&& same("min_p"@) ==> a.min_p == b.min_p
            &&& same("frequency_penalty"@) ==> a.frequency_penalty == b.frequency_penalty
            &&& same("presence_penalty"@) ==> a.presence_penalty == b.presence_penalty
            &&& same("repetition_penalty"@) ==> a.repetition_penalty == b.repetition_penalty
            &&& same("stop_token_id"@) ==> a.stop_token_id == b.stop_token_id
            &&& same("stop_token_ids"@) ==> a.stop_token_ids@ == b.stop_token_ids@
            &&& same("ignore_eos"@) ==> a.ignore_eos == b.ignore_eos
            &&& same("n"@) ==> a.n == b.n
            &&& same("best_of"@) ==> a.best_of == b.best_of
        }),
{
}

/// A number of a request is its own member, or else that of the sampling before.
pub open spec fn number_over(
    payload: JsonView,
    key: Seq<char>,
    before: Option<JsonNumber>,
    field: Option<JsonNumber>,
) -> bool {
    if payload.get(key) is None {
        field == before
    } else {
        tells_number(payload, key, field)
    }
}

/// The members of a request go before the sampling that was given, each for the field of its name, and
/// the fields without such a member stay as they were.
pub open spec fn sampling_over(
    payload: JsonView,
    before: RouterSamplingParams,
    params: RouterSamplingParams,
) -> bool {
    &&& number_over(payload, "temperature"@, before.temperature, params.temperature)
    &&& number_over(payload, "top_p"@, before.top_p, params.top_p)
    &&& number_over(payload, "min_p"@, before.min_p, params.min_p)
    &&& number_over(
        payload,
        "frequency_penalty"@,
        before.frequency_penalty,
        params.frequency_penalty,
    )
    &&& number_over(
        payload,
        "presence_penalty"@,
        before.presence_penalty,
        params.presence_penalty,
    )
    &&& number_over(
        payload,
        "repetition_penalty"@,
        before.repetition_penalty,
        params.repetition_penalty,
    )
    &&& if payload.get("top_k"@) is None {
        params.top_k == before.top_k
    } else {
        tells_i32(payload, "top_k"@, params.top_k)
    }
    &&& if payload.get("ignore_eos"@) is None {
        params.ignore_eos == before.ignore_eos
    } else {
        tells_flag(payload, "ignore_eos"@, params.ignore_eos)
    }
    &&& if payload.get("stop_token_ids"@) is None {
        params.stop_token_ids@ == before.stop_token_ids@
    } else {
        tells_list(payload, "stop_token_ids"@, params.stop_token_ids@)
    }
    &&& params.max_new_tokens == before.max_new_tokens
    &&& params.stop_token_id == before.stop_token_id
    &&& params.n == before.n
    &&& params.best_of == before.best_of
}

/// A member may be missing or null.
pub open spec fn not_given(payload: JsonView, key: Seq<char>) -> bool {
    payload.get(key) matches Some(member) ==> member == JsonView::Null
}

/// The sampling members of a request are of their types, and nothing is asked for that the runtime
/// cannot do.
pub open spec fn is_openai_sampling(payload: JsonView) -> bool {
    &&& may_be_number(payload, "temperature"@)
    &&& may_be_number(payload, "top_p"@)
    &&& may_be_i32(payload, "top_k"@)
    &&& may_be_number(payload, "min_p"@)
    &&& may_be_number(payload, "frequency_penalty"@)
    &&& may_be_number(payload, "presence_penalty"@)
    &&& may_be_number(payload, "repetition_penalty"@)
    &&& may_be_flag(payload, "ignore_eos"@)
    &&& may_be_list(payload, "stop_token_ids"@)
    &&& not_given(payload, "stop"@)
    &&& not_given(payload, "seed"@)
    &&& not_given(payload, "logit_bias"@)
    &&& not_given(payload, "response_format"@)
    &&& not_given(payload, "best_of"@)
    &&& payload.get("logprobs"@) matches Some(member) ==> member == JsonView::Bool(false)
}

/// The members of a request go before the sampling that was given, and a request is turned down
/// exactly where a member is not of its type or asks for what the runtime cannot do.
pub proof fn request_members_go_before_the_sampling_given(
    payload: Json,
    before: RouterSamplingParams,
    adjusted: Result<RouterSamplingParams, String>,
)
    requires
        call_ensures(apply_openai_sampling_params, (&payload, before), adjusted),
    ensures
        adjusted is Ok <==> is_openai_sampling(payload@),
        adjusted matches Ok(params) ==> sampling_over(payload@, before, params),
{
    lemma_i32_member(payload@, "top_k"@);
    lemma_list(payload@, "stop_token_ids"@);
}

/// What is not supported is named in the answer.
pub proof fn unsupported_members_are_named(
    payload: Json,
    before: RouterSamplingParams,
    adjusted: Result<RouterSamplingParams, String>,
    key: Seq<char>,
    value: JsonView,
)
    requires
        call_ensures(apply_openai_sampling_params, (&payload, before), adjusted),
        key == "stop"@ || key == "seed"@ || key == "logit_bias"@ || key == "response_format"@
            || key == "best_of"@ || key == "logprobs"@,
        payload@ == crate::json::empty_object().with(key, value),
        value != JsonView::Null,
        value != JsonView::Bool(false),
    ensures
        adjusted is Err,
        adjusted->Err_0@ == key + " is not supported by the current sampling runtime"@,
{
    reveal_strlit("temperature");
    reveal_strlit("top_p");
    reveal_strlit("top_k");
    reveal_strlit("min_p");
    reveal_strlit("frequency_penalty");
    reveal_strlit("presence_penalty");
    reveal_strlit("repetition_penalty");
    reveal_strlit("ignore_eos");
    reveal_strlit("stop_token_ids");
    reveal_strlit("stop");
    reveal_strlit("seed");
    reveal_strlit("logit_bias");
    reveal_strlit("response_format");
    reveal_strlit("best_of");
    reveal_strlit("logprobs");
    reveal_strlit(" is not supported by the current sampling runtime");
    reveal_strlit("logprobs is not supported by the current sampling runtime");
    assert("logprobs"@ + " is not supported by the current sampling runtime"@
        =~= "logprobs is not supported by the current sampling runtime"@);
    assert("stop"@.len() == 4 && "seed"@.len() == 4 && "stop"@[1] == 't' && "seed"@[1] == 'e');
    assert("best_of"@.len() == 7 && "logprobs"@.len() == 8);
    assert("logit_bias"@.len() == 10 && "ignore_eos"@.len() == 10 && "logit_bias"@[0] == 'l'
        && "ignore_eos"@[0] == 'i');
    assert("response_format"@.len() == 15 && "temperature"@.len() == 11);
    assert("frequency_penalty"@.len() == 17 && "presence_penalty"@.len() == 16);
    assert("repetition_penalty"@.len() == 18 && "stop_token_ids"@.len() == 14);
    assert("top_p"@.len() == 5 && "top_k"@.len() == 5 && "min_p"@.len() == 5);
    assert(forall|other: Seq<char>| other.len() != key.len() ==> payload@.get(other) is None);
}

/// Where the servers meet is the member of its name: host, port and room, at the top of the payload
/// or, where none of them is there, in its own object.
pub open spec fn meets_at(value: JsonView, params: RouterDisaggregatedParams) -> bool {
    &&& value.get("bootstrap_host"@) == Some(JsonView::Text(params.bootstrap_host@))
    &&& value.get("bootstrap_port"@) == Some(
        JsonView::Number(JsonNumber::Unsigned(params.bootstrap_port as u64)),
    )
    &&& value.get("bootstrap_room"@) == Some(
        JsonView::Number(JsonNumber::Unsigned(params.bootstrap_room)),
    )
    &&& params.bootstrap_room <= i64::MAX
}

/// The meeting of a payload holds the host, the port and the room under their names, at the top of
/// the payload or in its own object.
pub proof fn meetings_are_their_members(
    payload: Json,
    meeting: Result<Option<RouterDisaggregatedParams>, String>,
)
    requires
        call_ensures(json_to_disaggregated_params, (&payload,), meeting),
    ensures
        meeting matches Ok(Some(params)) ==> if payload@.get("bootstrap_host"@) is Some
            || payload@.get("bootstrap_port"@) is Some || payload@.get("bootstrap_room"@) is Some {
            meets_at(payload@, params)
        } else {
            payload@.get("disaggregated_params"@) is Some && meets_at(
                payload@.get("disaggregated_params"@)->0,
                params,
            )
        },
        meeting matches Ok(None) ==> payload@.get("bootstrap_host"@) is None && payload@.get(
            "bootstrap_port"@,
        ) is None && payload@.get("bootstrap_room"@) is None && payload@.get(
            "disaggregated_params"@,
        ) is None,
        (exists|params: RouterDisaggregatedParams| meets_at(payload@, params)) ==> meeting matches Ok(
            Some(_),
        ),
{
}

/// The sampling of a payload is read from its member `sampling_params`.
pub proof fn payloads_hold_their_sampling(
    payload: Json,
    sampling: Result<Option<RouterSamplingParams>, String>,
)
    requires
        call_ensures(optional_sampling_params, (&payload,), sampling),
    ensures
        sampling is Ok <==> payload@.get("sampling_params"@) is None || is_sampling(
            payload@.get("sampling_params"@)->0,
        ),
        sampling matches Ok(None) ==> payload@.get("sampling_params"@) is None,
        sampling matches Ok(Some(params)) ==> payload@.get("sampling_params"@) is Some
            && sampling_as_told(payload@.get("sampling_params"@)->0, params),
{
    if let Some(value) = payload@.get("sampling_params"@) {
        lemma_i32_member(value, "max_new_tokens"@);
        lemma_i32_member(value, "top_k"@);
        lemma_i32_member(value, "stop_token_id"@);
        lemma_i32_member(value, "n"@);
        lemma_i32_member(value, "best_of"@);
        lemma_list(value, "stop_token_ids"@);
    }
}

} // verus!
