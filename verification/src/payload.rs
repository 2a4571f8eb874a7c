//! What request payloads say, field by field.
use vstd::prelude::*;
use vstd::string::*;

use crate::json::{views, Json, JsonNumber, JsonView};
use crate::router::{
    copy_meeting, meetings, optional_meeting, Meeting, RouterDisaggregatedParams,
    RouterSamplingParams, Sampling,
};
use crate::text::{cat2, cat5, decimal, decimal_usize, texts};

verus! {

/// The message that a reading failed with.
pub open spec fn failed<T>(reading: Result<T, Seq<char>>) -> Option<Seq<char>> {
    match reading {
        Ok(_) => None,
        Err(message) => Some(message),
    }
}

/// The first of two failures.
pub open spec fn either(a: Option<Seq<char>>, b: Option<Seq<char>>) -> Option<Seq<char>> {
    if a is Some {
        a
    } else {
        b
    }
}

/// What `read` makes of each item, or the first failure.
pub open spec fn collected<T>(
    items: Seq<JsonView>,
    read: spec_fn(JsonView) -> Result<T, Seq<char>>,
) -> Result<Seq<T>, Seq<char>>
    decreases items.len(),
{
    if items.len() == 0 {
        Ok(Seq::empty())
    } else {
        match collected(items.drop_last(), read) {
            Err(message) => Err(message),
            Ok(front) => match read(items.last()) {
                Err(message) => Err(message),
                Ok(value) => Ok(front.push(value)),
            },
        }
    }
}

/// A failure among the first items is the failure of all.
pub proof fn failures_stay<T>(
    items: Seq<JsonView>,
    read: spec_fn(JsonView) -> Result<T, Seq<char>>,
    i: int,
)
    requires
        0 <= i <= items.len(),
    ensures
        collected(items.take(i), read) is Err ==> collected(items, read) == collected(
            items.take(i),
            read,
        ),
    decreases items.len() - i,
{
    if i < items.len() {
        assert(items.take(i + 1).drop_last() =~= items.take(i));
        failures_stay(items, read, i + 1);
    } else {
        assert(items.take(i) =~= items);
    }
}

/// Reading one more item.
pub proof fn collected_step<T>(
    items: Seq<JsonView>,
    read: spec_fn(JsonView) -> Result<T, Seq<char>>,
    i: int,
)
    requires
        0 <= i < items.len(),
        collected(items.take(i), read) is Ok,
    ensures
        read(items[i]) is Err ==> collected(items, read) == Err::<Seq<T>, Seq<char>>(
            read(items[i])->Err_0,
        ),
        read(items[i]) is Ok ==> collected(items.take(i + 1), read) == Ok::<Seq<T>, Seq<char>>(
            collected(items.take(i), read)->Ok_0.push(read(items[i])->Ok_0),
        ),
{
    assert(items.take(i + 1).drop_last() =~= items.take(i));
    assert(items.take(i + 1).last() == items[i]);
    failures_stay(items, read, i + 1);
}

/// `value`, once for each item of a batch.
pub open spec fn repeated<T>(value: T, batch_size: nat) -> Seq<T> {
    Seq::new(batch_size, |i: int| value)
}

/// What is said of a list that has not one item for each of the batch.
pub open spec fn length_message(field: Seq<char>, len: nat, batch_size: nat) -> Seq<char> {
    field + " length "@ + decimal(len) + " does not match batch size "@ + decimal(batch_size)
}

/// The text of a JSON string.
pub open spec fn text_or(value: JsonView, message: Seq<char>) -> Result<Seq<char>, Seq<char>> {
    match value.as_text() {
        Some(text) => Ok(text),
        None => Err(message),
    }
}

/// The signed 32-bit number of a JSON number.
pub open spec fn i32_or(value: JsonView, not_integer: Seq<char>, too_large: Seq<char>) -> Result<
    i32,
    Seq<char>,
> {
    match value.as_integer() {
        Some(n) => if i32::MIN <= n <= i32::MAX {
            Ok(n as i32)
        } else {
            Err(too_large)
        },
        None => Err(not_integer),
    }
}

/// The unsigned 32-bit number of a JSON number.
pub open spec fn u32_or(value: JsonView, not_natural: Seq<char>, too_large: Seq<char>) -> Result<
    u32,
    Seq<char>,
> {
    match value.as_natural() {
        Some(n) => if n <= u32::MAX {
            Ok(n as u32)
        } else {
            Err(too_large)
        },
        None => Err(not_natural),
    }
}

/// The port of a JSON number.
pub open spec fn port_or(value: JsonView, field: Seq<char>) -> Result<u16, Seq<char>> {
    match value.as_natural() {
        Some(n) => if n <= u16::MAX {
            Ok(n as u16)
        } else {
            Err(field + " is too large for u16"@)
        },
        None => Err(field + " must be an unsigned integer"@),
    }
}

/// The room of a JSON number.
pub open spec fn room_or(value: JsonView, field: Seq<char>) -> Result<u64, Seq<char>> {
    match value.as_natural() {
        Some(n) => if n <= i64::MAX {
            Ok(n as u64)
        } else {
            Err(field + " must fit in signed 63-bit range"@)
        },
        None => Err(field + " must be an unsigned integer"@),
    }
}

/// The integer of a field that may be missing.
pub open spec fn i32_in(payload: JsonView, field: Seq<char>) -> Result<Option<i32>, Seq<char>> {
    match payload.get(field) {
        None => Ok(None),
        Some(value) => match i32_or(
            value,
            field + " must be an integer"@,
            field + " is too large for i32"@,
        ) {
            Ok(n) => Ok(Some(n)),
            Err(message) => Err(message),
        },
    }
}

/// The number of a field that may be missing.
pub open spec fn number_in(payload: JsonView, field: Seq<char>) -> Result<
    Option<JsonNumber>,
    Seq<char>,
> {
    match payload.get(field) {
        None => Ok(None),
        Some(value) => match value.as_number() {
            Some(number) => Ok(Some(number)),
            None => Err(field + " must be a number"@),
        },
    }
}

/// The flag of a field that may be missing.
pub open spec fn flag_in(payload: JsonView, field: Seq<char>) -> Result<Option<bool>, Seq<char>> {
    match payload.get(field) {
        None => Ok(None),
        Some(value) => match value.as_flag() {
            Some(flag) => Ok(Some(flag)),
            None => Err(field + " must be a boolean"@),
        },
    }
}

/// The text of a field that may be missing.
pub open spec fn text_in(payload: JsonView, field: Seq<char>) -> Result<
    Option<Seq<char>>,
    Seq<char>,
> {
    match payload.get(field) {
        None => Ok(None),
        Some(value) => match value.as_text() {
            Some(text) => Ok(Some(text)),
            None => Err(field + " must be a string"@),
        },
    }
}

/// The text of a field; a field that is missing or no text has the empty text.
pub open spec fn text_or_empty(payload: JsonView, field: Seq<char>) -> Seq<char> {
    match payload.get(field) {
        Some(value) => match value.as_text() {
            Some(text) => text,
            None => Seq::empty(),
        },
        None => Seq::empty(),
    }
}

/// The integers of a field that may be missing.
pub open spec fn i32_list_in(payload: JsonView, field: Seq<char>) -> Result<
    Option<Seq<i32>>,
    Seq<char>,
> {
    match payload.get(field) {
        None => Ok(None),
        Some(value) => match value.as_items() {
            Some(items) => match collected(
                items,
                |item: JsonView|
                    i32_or(
                        item,
                        field + " must be an integer array"@,
                        field + " contains an integer too large for i32"@,
                    ),
            ) {
                Ok(list) => Ok(Some(list)),
                Err(message) => Err(message),
            },
            None => Err(field + " must be an integer array"@),
        },
    }
}

/// One text for each item of a batch, from a text or a list of texts.
pub open spec fn batch_texts(value: JsonView, field: Seq<char>, batch_size: nat) -> Result<
    Seq<Seq<char>>,
    Seq<char>,
> {
    match value.as_text() {
        Some(text) => Ok(repeated(text, batch_size)),
        None => match value.as_items() {
            None => Err(field + " must be a string or array of strings"@),
            Some(items) => if items.len() != batch_size {
                Err(length_message(field, items.len(), batch_size))
            } else {
                collected(items, |item: JsonView| text_or(item, field + " entries must be strings"@))
            },
        },
    }
}

/// One text for each item of a batch; a missing field has the empty text.
pub open spec fn optional_texts_in(payload: JsonView, field: Seq<char>, batch_size: nat) -> Result<
    Seq<Seq<char>>,
    Seq<char>,
> {
    match payload.get(field) {
        None => Ok(repeated(Seq::empty(), batch_size)),
        Some(value) => batch_texts(value, field, batch_size),
    }
}

/// One text for each item of a batch; the field must be there.
pub open spec fn required_texts_in(payload: JsonView, field: Seq<char>, batch_size: nat) -> Result<
    Seq<Seq<char>>,
    Seq<char>,
> {
    match payload.get(field) {
        None => Err(field + " is required"@),
        Some(value) => batch_texts(value, field, batch_size),
    }
}

/// One integer for each item of a batch; a missing field has zero.
pub open spec fn i32s_in(payload: JsonView, field: Seq<char>, batch_size: nat) -> Result<
    Seq<i32>,
    Seq<char>,
> {
    match payload.get(field) {
        None => Ok(repeated(0i32, batch_size)),
        Some(value) => match value.as_integer() {
            Some(n) => if i32::MIN <= n <= i32::MAX {
                Ok(repeated(n as i32, batch_size))
            } else {
                Err(field + " is out of i32 range"@)
            },
            None => match value.as_items() {
                None => Err(field + " must be an integer or array of integers"@),
                Some(items) => if items.len() != batch_size {
                    Err(length_message(field, items.len(), batch_size))
                } else {
                    collected(
                        items,
                        |item: JsonView|
                            i32_or(
                                item,
                                field + " entries must be integers"@,
                                field + " entry is out of i32 range"@,
                            ),
                    )
                },
            },
        },
    }
}

/// One port for each item of a batch.
pub open spec fn ports_in(payload: JsonView, field: Seq<char>, batch_size: nat) -> Result<
    Seq<u16>,
    Seq<char>,
> {
    match payload.get(field) {
        None => Err(field + " is required"@),
        Some(value) => if value.as_natural() is Some {
            match port_or(value, field) {
                Ok(port) => Ok(repeated(port, batch_size)),
                Err(message) => Err(message),
            }
        } else {
            match value.as_items() {
                None => Err(field + " must be an unsigned integer or array"@),
                Some(items) => if items.len() != batch_size {
                    Err(length_message(field, items.len(), batch_size))
                } else {
                    collected(items, |item: JsonView| port_or(item, field))
                },
            }
        },
    }
}

/// One room for each item of a batch.
pub open spec fn rooms_in(payload: JsonView, field: Seq<char>, batch_size: nat) -> Result<
    Seq<u64>,
    Seq<char>,
> {
    match payload.get(field) {
        None => Err(field + " is required"@),
        Some(value) => if value.as_natural() is Some {
            match room_or(value, field) {
                Ok(room) => Ok(repeated(room, batch_size)),
                Err(message) => Err(message),
            }
        } else {
            match value.as_items() {
                None => Err(field + " must be an unsigned integer or array"@),
                Some(items) => if items.len() != batch_size {
                    Err(length_message(field, items.len(), batch_size))
                } else {
                    collected(items, |item: JsonView| room_or(item, field))
                },
            }
        },
    }
}

/// The data parallel rank of a request. The older name of the field counts where the newer one is
/// missing.
pub open spec fn rank_in(payload: JsonView) -> Result<Option<i32>, Seq<char>> {
    match i32_in(payload, "routed_dp_rank"@) {
        Ok(Some(rank)) => Ok(Some(rank)),
        Ok(None) => i32_in(payload, "data_parallel_rank"@),
        Err(message) => Err(message),
    }
}

/// The data parallel ranks of a batch.
pub open spec fn ranks_in(payload: JsonView, batch_size: nat) -> Result<Seq<i32>, Seq<char>> {
    if payload.get("routed_dp_rank"@) is Some {
        i32s_in(payload, "routed_dp_rank"@, batch_size)
    } else {
        i32s_in(payload, "data_parallel_rank"@, batch_size)
    }
}

/// Where two servers meet, as an object tells it.
pub open spec fn meeting_of(value: JsonView) -> Result<Meeting, Seq<char>> {
    let host = match value.get("bootstrap_host"@) {
        Some(member) => text_or(member, "bootstrap_host"@ + " must be a string"@),
        None => Err("bootstrap_host"@ + " must be a string"@),
    };
    let port = match value.get("bootstrap_port"@) {
        Some(member) => port_or(member, "bootstrap_port"@),
        None => Err("bootstrap_port"@ + " must be an unsigned integer"@),
    };
    let room = match value.get("bootstrap_room"@) {
        Some(member) => room_or(member, "bootstrap_room"@),
        None => Err("bootstrap_room"@ + " must be an unsigned integer"@),
    };
    match either(failed(host), either(failed(port), failed(room))) {
        Some(message) => Err(message),
        None => Ok(
            Meeting {
                bootstrap_host: host->Ok_0,
                bootstrap_port: port->Ok_0,
                bootstrap_room: room->Ok_0,
            },
        ),
    }
}

/// Whether a payload itself tells where two servers meet.
pub open spec fn tells_meeting(payload: JsonView) -> bool {
    payload.get("bootstrap_host"@) is Some || payload.get("bootstrap_port"@) is Some || payload.get(
        "bootstrap_room"@,
    ) is Some
}

/// Where two servers meet over a request.
pub open spec fn meeting_in(payload: JsonView) -> Result<Option<Meeting>, Seq<char>> {
    if tells_meeting(payload) {
        match meeting_of(payload) {
            Ok(meeting) => Ok(Some(meeting)),
            Err(message) => Err(message),
        }
    } else {
        match payload.get("disaggregated_params"@) {
            None => Ok(None),
            Some(value) => if !(value is Object) {
                Err("disaggregated_params must be an object"@)
            } else {
                match meeting_of(value) {
                    Ok(meeting) => Ok(Some(meeting)),
                    Err(message) => Err(message),
                }
            },
        }
    }
}

/// Where two servers meet over each request of a batch.
pub open spec fn meetings_in(payload: JsonView, batch_size: nat) -> Result<
    Seq<Option<Meeting>>,
    Seq<char>,
> {
    if tells_meeting(payload) {
        let hosts = required_texts_in(payload, "bootstrap_host"@, batch_size);
        let ports = ports_in(payload, "bootstrap_port"@, batch_size);
        let rooms = rooms_in(payload, "bootstrap_room"@, batch_size);
        match either(failed(hosts), either(failed(ports), failed(rooms))) {
            Some(message) => Err(message),
            None => Ok(
                Seq::new(
                    batch_size,
                    |i: int|
                        Some(
                            Meeting {
                                bootstrap_host: hosts->Ok_0[i],
                                bootstrap_port: ports->Ok_0[i],
                                bootstrap_room: rooms->Ok_0[i],
                            },
                        ),
                ),
            ),
        }
    } else {
        match meeting_in(payload) {
            Ok(meeting) => Ok(repeated(meeting, batch_size)),
            Err(message) => Err(message),
        }
    }
}

/// The sampling that an object tells.
pub open spec fn sampling_of(value: JsonView) -> Result<Sampling, Seq<char>> {
    if !(value is Object) {
        Err("sampling_params must be an object"@)
    } else {
        let failure = either(
            failed(i32_in(value, "max_new_tokens"@)),
            either(
                failed(number_in(value, "temperature"@)),
                either(
                    failed(number_in(value, "top_p"@)),
                    either(
                        failed(i32_in(value, "top_k"@)),
                        either(
                            failed(number_in(value, "min_p"@)),
                            either(
                                failed(number_in(value, "frequency_penalty"@)),
                                either(
                                    failed(number_in(value, "presence_penalty"@)),
                                    either(
                                        failed(number_in(value, "repetition_penalty"@)),
                                        either(
                                            failed(i32_in(value, "stop_token_id"@)),
                                            either(
                                                failed(i32_list_in(value, "stop_token_ids"@)),
                                                either(
                                                    failed(flag_in(value, "ignore_eos"@)),
                                                    either(
                                                        failed(i32_in(value, "n"@)),
                                                        failed(i32_in(value, "best_of"@)),
                                                    ),
                                                ),
                                            ),
                                        ),
                                    ),
                                ),
                            ),
                        ),
                    ),
                ),
            ),
        );
        match failure {
            Some(message) => Err(message),
            None => Ok(
                Sampling {
                    max_new_tokens: i32_in(value, "max_new_tokens"@)->Ok_0,
                    temperature: number_in(value, "temperature"@)->Ok_0,
                    top_p: number_in(value, "top_p"@)->Ok_0,
                    top_k: i32_in(value, "top_k"@)->Ok_0,
                    min_p: number_in(value, "min_p"@)->Ok_0,
                    frequency_penalty: number_in(value, "frequency_penalty"@)->Ok_0,
                    presence_penalty: number_in(value, "presence_penalty"@)->Ok_0,
                    repetition_penalty: number_in(value, "repetition_penalty"@)->Ok_0,
                    stop_token_id: i32_in(value, "stop_token_id"@)->Ok_0,
                    stop_token_ids: match i32_list_in(value, "stop_token_ids"@)->Ok_0 {
                        Some(list) => list,
                        None => Seq::empty(),
                    },
                    ignore_eos: flag_in(value, "ignore_eos"@)->Ok_0,
                    n: i32_in(value, "n"@)->Ok_0,
                    best_of: i32_in(value, "best_of"@)->Ok_0,
                },
            ),
        }
    }
}

/// The sampling of a payload that may not tell it.
pub open spec fn sampling_in(payload: JsonView) -> Result<Option<Sampling>, Seq<char>> {
    match payload.get("sampling_params"@) {
        None => Ok(None),
        Some(value) => match sampling_of(value) {
            Ok(sampling) => Ok(Some(sampling)),
            Err(message) => Err(message),
        },
    }
}

/// `value`, where it is given.
pub open spec fn overridden<T>(known: Option<T>, value: Option<T>) -> Option<T> {
    if value is Some {
        value
    } else {
        known
    }
}

/// What is said of a field that is not supported.
pub open spec fn unsupported(payload: JsonView, field: Seq<char>) -> Option<Seq<char>> {
    match payload.get(field) {
        Some(value) => if value is Null {
            None
        } else {
            Some(field + " is not supported by the current sampling runtime"@)
        },
        None => None,
    }
}

/// What keeps the sampling fields of an OpenAI payload from being read.
pub open spec fn openai_sampling_failure(payload: JsonView) -> Option<Seq<char>> {
    either(
        failed(number_in(payload, "temperature"@)),
        either(
            failed(number_in(payload, "top_p"@)),
            either(
                failed(i32_in(payload, "top_k"@)),
                either(
                    failed(number_in(payload, "min_p"@)),
                    either(
                        failed(number_in(payload, "frequency_penalty"@)),
                        either(
                            failed(number_in(payload, "presence_penalty"@)),
                            either(
                                failed(number_in(payload, "repetition_penalty"@)),
                                either(
                                    failed(flag_in(payload, "ignore_eos"@)),
                                    either(
                                        failed(i32_list_in(payload, "stop_token_ids"@)),
                                        either(
                                            unsupported(payload, "stop"@),
                                            either(
                                                unsupported(payload, "seed"@),
                                                either(
                                                    unsupported(payload, "logit_bias"@),
                                                    either(
                                                        unsupported(payload, "response_format"@),
                                                        either(
                                                            unsupported(payload, "best_of"@),
                                                            match payload.get("logprobs"@) {
                                                                Some(value) => if value
                                                                    == JsonView::Bool(false) {
                                                                    None
                                                                } else {
                                                                    Some(
                                                                        "logprobs is not supported by the current sampling runtime"@,
                                                                    )
                                                                },
                                                                None => None,
                                                            },
                                                        ),
                                                    ),
                                                ),
                                            ),
                                        ),
                                    ),
                                ),
                            ),
                        ),
                    ),
                ),
            ),
        ),
    )
}

/// Sampling as an OpenAI payload adjusts it. What the payload tells directly counts.
pub open spec fn openai_sampling(payload: JsonView, sampling: Sampling) -> Result<
    Sampling,
    Seq<char>,
> {
    match openai_sampling_failure(payload) {
        Some(message) => Err(message),
        None => Ok(
            Sampling {
                temperature: overridden(
                    sampling.temperature,
                    number_in(payload, "temperature"@)->Ok_0,
                ),
                top_p: overridden(sampling.top_p, number_in(payload, "top_p"@)->Ok_0),
                top_k: overridden(sampling.top_k, i32_in(payload, "top_k"@)->Ok_0),
                min_p: overridden(sampling.min_p, number_in(payload, "min_p"@)->Ok_0),
                frequency_penalty: overridden(
                    sampling.frequency_penalty,
                    number_in(payload, "frequency_penalty"@)->Ok_0,
                ),
                presence_penalty: overridden(
                    sampling.presence_penalty,
                    number_in(payload, "presence_penalty"@)->Ok_0,
                ),
                repetition_penalty: overridden(
                    sampling.repetition_penalty,
                    number_in(payload, "repetition_penalty"@)->Ok_0,
                ),
                ignore_eos: overridden(
                    sampling.ignore_eos,
                    flag_in(payload, "ignore_eos"@)->Ok_0,
                ),
                stop_token_ids: match i32_list_in(payload, "stop_token_ids"@)->Ok_0 {
                    Some(list) => list,
                    None => sampling.stop_token_ids,
                },
                ..sampling
            },
        ),
    }
}

/// Whether the reading `made` is the reading `meant`.
pub open spec fn reads<T>(made: Result<T, String>, meant: Result<T, Seq<char>>) -> bool {
    match made {
        Ok(value) => meant == Ok::<T, Seq<char>>(value),
        Err(message) => meant == Err::<T, Seq<char>>(message@),
    }
}

/// Whether the text `made` is the text `meant`.
pub open spec fn reads_text(made: Result<String, String>, meant: Result<Seq<char>, Seq<char>>) -> bool {
    match made {
        Ok(text) => meant == Ok::<Seq<char>, Seq<char>>(text@),
        Err(message) => meant == Err::<Seq<char>, Seq<char>>(message@),
    }
}

/// The integer of a field that may be missing.
pub fn optional_i32(payload: &Json, field: &str) -> (value: Result<Option<i32>, String>)
    ensures
        reads(value, i32_in(payload@, field@)),
{
    match payload.get(field) {
        None => Ok(None),
        Some(raw) => match raw.as_i64() {
            None => Err(cat2(field, " must be an integer")),
            Some(n) => if n < -0x8000_0000 || n > 0x7fff_ffff {
                Err(cat2(field, " is too large for i32"))
            } else {
                Ok(Some(n as i32))
            },
        },
    }
}

/// The number of a field that may be missing.
pub fn optional_number(payload: &Json, field: &str) -> (value: Result<Option<JsonNumber>, String>)
    ensures
        reads(value, number_in(payload@, field@)),
{
    match payload.get(field) {
        None => Ok(None),
        Some(raw) => match raw.as_number() {
            None => Err(cat2(field, " must be a number")),
            Some(number) => Ok(Some(number)),
        },
    }
}

/// The flag of a field that may be missing.
pub fn optional_bool(payload: &Json, field: &str) -> (value: Result<Option<bool>, String>)
    ensures
        reads(value, flag_in(payload@, field@)),
{
    match payload.get(field) {
        None => Ok(None),
        Some(raw) => match raw.as_bool() {
            None => Err(cat2(field, " must be a boolean")),
            Some(flag) => Ok(Some(flag)),
        },
    }
}

/// The text of a field that may be missing.
pub fn optional_string<'a>(payload: &'a Json, field: &str) -> (value: Result<
    Option<&'a str>,
    String,
>)
    ensures
        match value {
            Ok(Some(text)) => text_in(payload@, field@) == Ok::<Option<Seq<char>>, Seq<char>>(
                Some(text@),
            ),
            Ok(None) => text_in(payload@, field@) == Ok::<Option<Seq<char>>, Seq<char>>(None),
            Err(message) => text_in(payload@, field@) == Err::<Option<Seq<char>>, Seq<char>>(
                message@,
            ),
        },
{
    match payload.get(field) {
        None => Ok(None),
        Some(raw) => match raw.as_str() {
            None => Err(cat2(field, " must be a string")),
            Some(text) => Ok(Some(text)),
        },
    }
}

/// The text of a field; a field that is missing or no text has the empty text.
pub fn string_or_empty(payload: &Json, field: &str) -> (text: String)
    ensures
        text@ == text_or_empty(payload@, field@),
{
    match payload.get(field) {
        None => {
            let text = String::new();
            proof {
                assert(text@ =~= Seq::empty());
            }
            text
        },
        Some(raw) => match raw.as_str() {
            None => {
                let text = String::new();
                proof {
                    assert(text@ =~= Seq::empty());
                }
                text
            },
            Some(text) => text.to_owned(),
        },
    }
}

/// Reads each item as a signed 32-bit number.
pub fn read_i32s(items: &Vec<Json>, not_integer: &str, too_large: &str) -> (list: Result<
    Vec<i32>,
    String,
>)
    ensures
        match list {
            Ok(v) => collected(
                views(items@),
                |item: JsonView| i32_or(item, not_integer@, too_large@),
            ) == Ok::<Seq<i32>, Seq<char>>(v@),
            Err(message) => collected(
                views(items@),
                |item: JsonView| i32_or(item, not_integer@, too_large@),
            ) == Err::<Seq<i32>, Seq<char>>(message@),
        },
{
    let ghost all = views(items@);
    let ghost read = |item: JsonView| i32_or(item, not_integer@, too_large@);
    let mut list: Vec<i32> = Vec::new();
    let mut i: usize = 0;
    proof {
        assert(all.take(0) =~= Seq::empty());
        assert(list@ =~= Seq::empty());
    }
    while i < items.len()
        invariant
            i <= items@.len(),
            all == views(items@),
            read == (|item: JsonView| i32_or(item, not_integer@, too_large@)),
            collected(all.take(i as int), read) == Ok::<Seq<i32>, Seq<char>>(list@),
        decreases items@.len() - i,
    {
        proof {
            collected_step(all, read, i as int);
        }
        match items[i].as_i64() {
            None => {
                return Err(not_integer.to_owned());
            },
            Some(n) => {
                if n < -0x8000_0000 || n > 0x7fff_ffff {
                    return Err(too_large.to_owned());
                }
                list.push(n as i32);
            },
        }
        i = i + 1;
    }
    proof {
        assert(all.take(i as int) =~= all);
    }
    Ok(list)
}

/// Reads each item as an unsigned 32-bit number.
pub fn read_u32s(items: &Vec<Json>, not_natural: &str, too_large: &str) -> (list: Result<
    Vec<u32>,
    String,
>)
    ensures
        match list {
            Ok(v) => collected(
                views(items@),
                |item: JsonView| u32_or(item, not_natural@, too_large@),
            ) == Ok::<Seq<u32>, Seq<char>>(v@),
            Err(message) => collected(
                views(items@),
                |item: JsonView| u32_or(item, not_natural@, too_large@),
            ) == Err::<Seq<u32>, Seq<char>>(message@),
        },
{
    let ghost all = views(items@);
    let ghost read = |item: JsonView| u32_or(item, not_natural@, too_large@);
    let mut list: Vec<u32> = Vec::new();
    let mut i: usize = 0;
    proof {
        assert(all.take(0) =~= Seq::empty());
        assert(list@ =~= Seq::empty());
    }
    while i < items.len()
        invariant
            i <= items@.len(),
            all == views(items@),
            read == (|item: JsonView| u32_or(item, not_natural@, too_large@)),
            collected(all.take(i as int), read) == Ok::<Seq<u32>, Seq<char>>(list@),
        decreases items@.len() - i,
    {
        proof {
            collected_step(all, read, i as int);
        }
        match items[i].as_u64() {
            None => {
                return Err(not_natural.to_owned());
            },
            Some(n) => {
                if n > 0xffff_ffff {
                    return Err(too_large.to_owned());
                }
                list.push(n as u32);
            },
        }
        i = i + 1;
    }
    proof {
        assert(all.take(i as int) =~= all);
    }
    Ok(list)
}

/// Reads each item as a text.
pub fn read_texts(items: &Vec<Json>, not_text: &str) -> (list: Result<Vec<String>, String>)
    ensures
        match list {
            Ok(v) => collected(views(items@), |item: JsonView| text_or(item, not_text@)) == Ok::<
                Seq<Seq<char>>,
                Seq<char>,
            >(texts(v@)),
            Err(message) => collected(views(items@), |item: JsonView| text_or(item, not_text@))
                == Err::<Seq<Seq<char>>, Seq<char>>(message@),
        },
{
    let ghost all = views(items@);
    let ghost read = |item: JsonView| text_or(item, not_text@);
    let mut list: Vec<String> = Vec::new();
    let mut i: usize = 0;
    proof {
        assert(all.take(0) =~= Seq::empty());
        assert(texts(list@) =~= Seq::empty());
    }
    while i < items.len()
        invariant
            i <= items@.len(),
            all == views(items@),
            read == (|item: JsonView| text_or(item, not_text@)),
            collected(all.take(i as int), read) == Ok::<Seq<Seq<char>>, Seq<char>>(texts(list@)),
        decreases items@.len() - i,
    {
        proof {
            collected_step(all, read, i as int);
        }
        match items[i].as_str() {
            None => {
                return Err(not_text.to_owned());
            },
            Some(text) => {
                let ghost before = texts(list@);
                list.push(text.to_owned());
                proof {
                    assert(texts(list@) =~= before.push(text@));
                }
            },
        }
        i = i + 1;
    }
    proof {
        assert(all.take(i as int) =~= all);
    }
    Ok(list)
}

/// The integers of a field that may be missing.
pub fn optional_i32_array(payload: &Json, field: &str) -> (list: Result<Option<Vec<i32>>, String>)
    ensures
        match list {
            Ok(Some(v)) => i32_list_in(payload@, field@) == Ok::<Option<Seq<i32>>, Seq<char>>(
                Some(v@),
            ),
            Ok(None) => i32_list_in(payload@, field@) == Ok::<Option<Seq<i32>>, Seq<char>>(None),
            Err(message) => i32_list_in(payload@, field@) == Err::<Option<Seq<i32>>, Seq<char>>(
                message@,
            ),
        },
{
    match payload.get(field) {
        None => Ok(None),
        Some(raw) => match raw.as_array() {
            None => Err(cat2(field, " must be an integer array")),
            Some(items) => {
                let not_integer = cat2(field, " must be an integer array");
                let too_large = cat2(field, " contains an integer too large for i32");
                let list = read_i32s(items, not_integer.as_str(), too_large.as_str())?;
                Ok(Some(list))
            },
        },
    }
}

fn repeat_text(text: &str, batch_size: usize) -> (list: Vec<String>)
    ensures
        texts(list@) == repeated(text@, batch_size as nat),
{
    let mut list: Vec<String> = Vec::new();
    let mut i: usize = 0;
    while i < batch_size
        invariant
            i <= batch_size,
            list@.len() == i,
            forall|j: int| 0 <= j < i ==> (#[trigger] list@[j])@ == text@,
        decreases batch_size - i,
    {
        list.push(text.to_owned());
        i = i + 1;
    }
    proof {
        assert(texts(list@) =~= repeated(text@, batch_size as nat));
    }
    list
}

fn repeat<T: Copy>(value: T, batch_size: usize) -> (list: Vec<T>)
    ensures
        list@ == repeated(value, batch_size as nat),
{
    let mut list: Vec<T> = Vec::new();
    let mut i: usize = 0;
    while i < batch_size
        invariant
            i <= batch_size,
            list@.len() == i,
            forall|j: int| 0 <= j < i ==> #[trigger] list@[j] == value,
        decreases batch_size - i,
    {
        list.push(value);
        i = i + 1;
    }
    proof {
        assert(list@ =~= repeated(value, batch_size as nat));
    }
    list
}

fn wrong_length(field: &str, len: usize, batch_size: usize) -> (message: String)
    ensures
        message@ == length_message(field@, len as nat, batch_size as nat),
{
    cat5(
        field,
        " length ",
        decimal_usize(len).as_str(),
        " does not match batch size ",
        decimal_usize(batch_size).as_str(),
    )
}

fn strings_of(value: &Json, field: &str, batch_size: usize) -> (list: Result<Vec<String>, String>)
    ensures
        match list {
            Ok(v) => batch_texts(value@, field@, batch_size as nat) == Ok::<
                Seq<Seq<char>>,
                Seq<char>,
            >(texts(v@)),
            Err(message) => batch_texts(value@, field@, batch_size as nat) == Err::<
                Seq<Seq<char>>,
                Seq<char>,
            >(message@),
        },
{
    if let Some(text) = value.as_str() {
        return Ok(repeat_text(text, batch_size));
    }
    match value.as_array() {
        None => Err(cat2(field, " must be a string or array of strings")),
        Some(items) => {
            if items.len() != batch_size {
                return Err(wrong_length(field, items.len(), batch_size));
            }
            let not_text = cat2(field, " entries must be strings");
            read_texts(items, not_text.as_str())
        },
    }
}

/// One text for each item of a batch; a missing field has the empty text.
pub fn optional_string_values(payload: &Json, field: &str, batch_size: usize) -> (list: Result<
    Vec<String>,
    String,
>)
    ensures
        match list {
            Ok(v) => optional_texts_in(payload@, field@, batch_size as nat) == Ok::<
                Seq<Seq<char>>,
                Seq<char>,
            >(texts(v@)),
            Err(message) => optional_texts_in(payload@, field@, batch_size as nat) == Err::<
                Seq<Seq<char>>,
                Seq<char>,
            >(message@),
        },
{
    match payload.get(field) {
        None => {
            let empty = String::new();
            proof {
                assert(empty@ =~= Seq::empty());
            }
            Ok(repeat_text(empty.as_str(), batch_size))
        },
        Some(value) => strings_of(value, field, batch_size),
    }
}

/// One text for each item of a batch; the field must be there.
pub fn required_string_values(payload: &Json, field: &str, batch_size: usize) -> (list: Result<
    Vec<String>,
    String,
>)
    ensures
        match list {
            Ok(v) => required_texts_in(payload@, field@, batch_size as nat) == Ok::<
                Seq<Seq<char>>,
                Seq<char>,
            >(texts(v@)),
            Err(message) => required_texts_in(payload@, field@, batch_size as nat) == Err::<
                Seq<Seq<char>>,
                Seq<char>,
            >(message@),
        },
{
    match payload.get(field) {
        None => Err(cat2(field, " is required")),
        Some(value) => strings_of(value, field, batch_size),
    }
}

/// One integer for each item of a batch; a missing field has zero.
pub fn optional_i32_values(payload: &Json, field: &str, batch_size: usize) -> (list: Result<
    Vec<i32>,
    String,
>)
    ensures
        match list {
            Ok(v) => i32s_in(payload@, field@, batch_size as nat) == Ok::<Seq<i32>, Seq<char>>(v@),
            Err(message) => i32s_in(payload@, field@, batch_size as nat) == Err::<
                Seq<i32>,
                Seq<char>,
            >(message@),
        },
{
    match payload.get(field) {
        None => Ok(repeat(0i32, batch_size)),
        Some(value) => {
            if let Some(raw) = value.as_i64() {
                if raw < -0x8000_0000 || raw > 0x7fff_ffff {
                    return Err(cat2(field, " is out of i32 range"));
                }
                return Ok(repeat(raw as i32, batch_size));
            }
            match value.as_array() {
                None => Err(cat2(field, " must be an integer or array of integers")),
                Some(items) => {
                    if items.len() != batch_size {
                        return Err(wrong_length(field, items.len(), batch_size));
                    }
                    let not_integer = cat2(field, " entries must be integers");
                    let too_large = cat2(field, " entry is out of i32 range");
                    read_i32s(items, not_integer.as_str(), too_large.as_str())
                },
            }
        },
    }
}

/// The data parallel rank of a request.
pub fn optional_routed_dp_rank(payload: &Json) -> (rank: Result<Option<i32>, String>)
    ensures
        reads(rank, rank_in(payload@)),
{
    match optional_i32(payload, "routed_dp_rank")? {
        Some(rank) => Ok(Some(rank)),
        None => optional_i32(payload, "data_parallel_rank"),
    }
}

/// The data parallel ranks of a batch.
pub fn optional_routed_dp_rank_values(payload: &Json, batch_size: usize) -> (ranks: Result<
    Vec<i32>,
    String,
>)
    ensures
        match ranks {
            Ok(v) => ranks_in(payload@, batch_size as nat) == Ok::<Seq<i32>, Seq<char>>(v@),
            Err(message) => ranks_in(payload@, batch_size as nat) == Err::<Seq<i32>, Seq<char>>(
                message@,
            ),
        },
{
    if payload.has("routed_dp_rank") {
        return optional_i32_values(payload, "routed_dp_rank", batch_size);
    }
    optional_i32_values(payload, "data_parallel_rank", batch_size)
}

/// The port of a JSON number.
pub fn required_u16_value(value: &Json, field: &str) -> (port: Result<u16, String>)
    ensures
        reads(port, port_or(value@, field@)),
{
    match value.as_u64() {
        None => Err(cat2(field, " must be an unsigned integer")),
        Some(raw) => if raw > 0xffff {
            Err(cat2(field, " is too large for u16"))
        } else {
            Ok(raw as u16)
        },
    }
}

/// The room of a JSON number.
pub fn required_bootstrap_room_value(value: &Json, field: &str) -> (room: Result<u64, String>)
    ensures
        reads(room, room_or(value@, field@)),
{
    match value.as_u64() {
        None => Err(cat2(field, " must be an unsigned integer")),
        Some(raw) => if raw > 0x7fff_ffff_ffff_ffff {
            Err(cat2(field, " must fit in signed 63-bit range"))
        } else {
            Ok(raw)
        },
    }
}

/// One port for each item of a batch.
pub fn required_u16_values(payload: &Json, field: &str, batch_size: usize) -> (ports: Result<
    Vec<u16>,
    String,
>)
    ensures
        match ports {
            Ok(v) => ports_in(payload@, field@, batch_size as nat) == Ok::<Seq<u16>, Seq<char>>(
                v@,
            ),
            Err(message) => ports_in(payload@, field@, batch_size as nat) == Err::<
                Seq<u16>,
                Seq<char>,
            >(message@),
        },
{
    match payload.get(field) {
        None => Err(cat2(field, " is required")),
        Some(value) => {
            if value.as_u64().is_some() {
                let port: u16 = required_u16_value(value, field)?;
                return Ok(repeat(port, batch_size));
            }
            match value.as_array() {
                None => Err(cat2(field, " must be an unsigned integer or array")),
                Some(items) => {
                    if items.len() != batch_size {
                        return Err(wrong_length(field, items.len(), batch_size));
                    }
                    let ghost all = views(items@);
                    let ghost read = |item: JsonView| port_or(item, field@);
                    let mut list: Vec<u16> = Vec::new();
                    let mut i: usize = 0;
                    proof {
                        assert(all.take(0) =~= Seq::empty());
                        assert(list@ =~= Seq::empty());
                    }
                    while i < items.len()
                        invariant
                            i <= items@.len(),
                            all == views(items@),
                            read == (|item: JsonView| port_or(item, field@)),
                            payload@.get(field@) == Some(value@),
                            value@.as_natural() is None,
                            value@.as_items() == Some(all),
                            all.len() == batch_size,
                            collected(all.take(i as int), read) == Ok::<Seq<u16>, Seq<char>>(list@),
                        decreases items@.len() - i,
                    {
                        proof {
                            collected_step(all, read, i as int);
                        }
                        let port: u16 = required_u16_value(&items[i], field)?;
                        list.push(port);
                        i = i + 1;
                    }
                    proof {
                        assert(all.take(i as int) =~= all);
                    }
                    Ok(list)
                },
            }
        },
    }
}

/// One room for each item of a batch.
pub fn required_bootstrap_room_values(payload: &Json, field: &str, batch_size: usize) -> (rooms:
    Result<Vec<u64>, String>)
    ensures
        match rooms {
            Ok(v) => rooms_in(payload@, field@, batch_size as nat) == Ok::<Seq<u64>, Seq<char>>(
                v@,
            ),
            Err(message) => rooms_in(payload@, field@, batch_size as nat) == Err::<
                Seq<u64>,
                Seq<char>,
            >(message@),
        },
{
    match payload.get(field) {
        None => Err(cat2(field, " is required")),
        Some(value) => {
            if value.as_u64().is_some() {
                let room: u64 = required_bootstrap_room_value(value, field)?;
                return Ok(repeat(room, batch_size));
            }
            match value.as_array() {
                None => Err(cat2(field, " must be an unsigned integer or array")),
                Some(items) => {
                    if items.len() != batch_size {
                        return Err(wrong_length(field, items.len(), batch_size));
                    }
                    let ghost all = views(items@);
                    let ghost read = |item: JsonView| room_or(item, field@);
                    let mut list: Vec<u64> = Vec::new();
                    let mut i: usize = 0;
                    proof {
                        assert(all.take(0) =~= Seq::empty());
                        assert(list@ =~= Seq::empty());
                    }
                    while i < items.len()
                        invariant
                            i <= items@.len(),
                            all == views(items@),
                            read == (|item: JsonView| room_or(item, field@)),
                            payload@.get(field@) == Some(value@),
                            value@.as_natural() is None,
                            value@.as_items() == Some(all),
                            all.len() == batch_size,
                            collected(all.take(i as int), read) == Ok::<Seq<u64>, Seq<char>>(list@),
                        decreases items@.len() - i,
                    {
                        proof {
                            collected_step(all, read, i as int);
                        }
                        let room: u64 = required_bootstrap_room_value(&items[i], field)?;
                        list.push(room);
                        i = i + 1;
                    }
                    proof {
                        assert(all.take(i as int) =~= all);
                    }
                    Ok(list)
                },
            }
        },
    }
}

/// The text of a field that must be there.
pub fn required_string<'a>(value: &'a Json, field: &str) -> (text: Result<&'a str, String>)
    ensures
        match text {
            Ok(s) => value@.get(field@) is Some && value@.get(field@)->0.as_text() == Some(s@),
            Err(message) => (value@.get(field@) is None || value@.get(field@)->0.as_text() is None)
                && message@ == field@ + " must be a string"@,
        },
{
    match value.get(field) {
        Some(raw) => match raw.as_str() {
            Some(text) => Ok(text),
            None => Err(cat2(field, " must be a string")),
        },
        None => Err(cat2(field, " must be a string")),
    }
}

/// The port of a field that must be there.
pub fn required_u16(value: &Json, field: &str) -> (port: Result<u16, String>)
    ensures
        reads(
            port,
            match value@.get(field@) {
                Some(member) => port_or(member, field@),
                None => Err(field@ + " must be an unsigned integer"@),
            },
        ),
{
    match value.get(field) {
        Some(raw) => required_u16_value(raw, field),
        None => Err(cat2(field, " must be an unsigned integer")),
    }
}

/// The room of a field that must be there.
pub fn required_bootstrap_room(value: &Json, field: &str) -> (room: Result<u64, String>)
    ensures
        reads(
            room,
            match value@.get(field@) {
                Some(member) => room_or(member, field@),
                None => Err(field@ + " must be an unsigned integer"@),
            },
        ),
{
    match value.get(field) {
        Some(raw) => required_bootstrap_room_value(raw, field),
        None => Err(cat2(field, " must be an unsigned integer")),
    }
}

fn read_meeting(value: &Json) -> (meeting: Result<RouterDisaggregatedParams, String>)
    ensures
        match meeting {
            Ok(params) => meeting_of(value@) == Ok::<Meeting, Seq<char>>(params@),
            Err(message) => meeting_of(value@) == Err::<Meeting, Seq<char>>(message@),
        },
{
    let host = required_string(value, "bootstrap_host")?;
    let bootstrap_port: u16 = required_u16(value, "bootstrap_port")?;
    let bootstrap_room: u64 = required_bootstrap_room(value, "bootstrap_room")?;
    Ok(RouterDisaggregatedParams { bootstrap_host: host.to_owned(), bootstrap_port, bootstrap_room })
}

/// Where two servers meet over a request.
pub fn json_to_disaggregated_params(payload: &Json) -> (meeting: Result<
    Option<RouterDisaggregatedParams>,
    String,
>)
    ensures
        match meeting {
            Ok(params) => meeting_in(payload@) == Ok::<Option<Meeting>, Seq<char>>(
                optional_meeting(params),
            ),
            Err(message) => meeting_in(payload@) == Err::<Option<Meeting>, Seq<char>>(message@),
        },
{
    if payload.has("bootstrap_host") || payload.has("bootstrap_port") || payload.has(
        "bootstrap_room",
    ) {
        let meeting = read_meeting(payload)?;
        return Ok(Some(meeting));
    }
    match payload.get("disaggregated_params") {
        None => Ok(None),
        Some(value) => {
            if !value.is_object() {
                return Err("disaggregated_params must be an object".to_owned());
            }
            let meeting = read_meeting(value)?;
            Ok(Some(meeting))
        },
    }
}

/// Reading several items gives one value for each.
pub proof fn collected_len<T>(
    items: Seq<JsonView>,
    read: spec_fn(JsonView) -> Result<T, Seq<char>>,
)
    ensures
        collected(items, read) is Ok ==> collected(items, read)->Ok_0.len() == items.len(),
    decreases items.len(),
{
    if items.len() > 0 {
        collected_len(items.drop_last(), read);
    }
}

proof fn lemma_batch_lens(payload: JsonView, field: Seq<char>, batch_size: nat)
    ensures
        optional_texts_in(payload, field, batch_size) matches Ok(list) ==> list.len() == batch_size,
        required_texts_in(payload, field, batch_size) matches Ok(list) ==> list.len() == batch_size,
        i32s_in(payload, field, batch_size) matches Ok(list) ==> list.len() == batch_size,
        ports_in(payload, field, batch_size) matches Ok(list) ==> list.len() == batch_size,
        rooms_in(payload, field, batch_size) matches Ok(list) ==> list.len() == batch_size,
{
    if let Some(value) = payload.get(field) {
        if let Some(items) = value.as_items() {
            collected_len(
                items,
                |item: JsonView| text_or(item, field + " entries must be strings"@),
            );
            collected_len(
                items,
                |item: JsonView|
                    i32_or(
                        item,
                        field + " entries must be integers"@,
                        field + " entry is out of i32 range"@,
                    ),
            );
            collected_len(items, |item: JsonView| port_or(item, field));
            collected_len(items, |item: JsonView| room_or(item, field));
        }
    }
}

/// What a payload tells of a batch, it tells once for each item.
pub proof fn batches_are_complete(payload: JsonView, field: Seq<char>, batch_size: nat)
    ensures
        optional_texts_in(payload, field, batch_size) matches Ok(list) ==> list.len() == batch_size,
        ranks_in(payload, batch_size) matches Ok(list) ==> list.len() == batch_size,
        meetings_in(payload, batch_size) matches Ok(list) ==> list.len() == batch_size,
{
    lemma_batch_lens(payload, field, batch_size);
    lemma_batch_lens(payload, "routed_dp_rank"@, batch_size);
    lemma_batch_lens(payload, "data_parallel_rank"@, batch_size);
}

/// Where two servers meet over each request of a batch.
pub fn json_to_disaggregated_params_values(payload: &Json, batch_size: usize) -> (list: Result<
    Vec<Option<RouterDisaggregatedParams>>,
    String,
>)
    ensures
        match list {
            Ok(v) => meetings_in(payload@, batch_size as nat) == Ok::<
                Seq<Option<Meeting>>,
                Seq<char>,
            >(meetings(v@)),
            Err(message) => meetings_in(payload@, batch_size as nat) == Err::<
                Seq<Option<Meeting>>,
                Seq<char>,
            >(message@),
        },
{
    if payload.has("bootstrap_host") || payload.has("bootstrap_port") || payload.has(
        "bootstrap_room",
    ) {
        let hosts = required_string_values(payload, "bootstrap_host", batch_size)?;
        let ports = required_u16_values(payload, "bootstrap_port", batch_size)?;
        let rooms = required_bootstrap_room_values(payload, "bootstrap_room", batch_size)?;
        proof {
            lemma_batch_lens(payload@, "bootstrap_host"@, batch_size as nat);
            lemma_batch_lens(payload@, "bootstrap_port"@, batch_size as nat);
            lemma_batch_lens(payload@, "bootstrap_room"@, batch_size as nat);
            assert(texts(hosts@).len() == batch_size);
        }
        let mut list: Vec<Option<RouterDisaggregatedParams>> = Vec::new();
        let mut i: usize = 0;
        while i < batch_size
            invariant
                i <= batch_size,
                hosts@.len() == batch_size,
                ports@.len() == batch_size,
                rooms@.len() == batch_size,
                list@.len() == i,
                forall|j: int|
                    0 <= j < i ==> optional_meeting(#[trigger] list@[j]) == Some(
                        Meeting {
                            bootstrap_host: texts(hosts@)[j],
                            bootstrap_port: ports@[j],
                            bootstrap_room: rooms@[j],
                        },
                    ),
            decreases batch_size - i,
        {
            list.push(
                Some(
                    RouterDisaggregatedParams {
                        bootstrap_host: hosts[i].clone(),
                        bootstrap_port: ports[i],
                        bootstrap_room: rooms[i],
                    },
                ),
            );
            i = i + 1;
        }
        proof {
            assert(meetings(list@) =~= meetings_in(payload@, batch_size as nat)->Ok_0);
        }
        return Ok(list);
    }
    let meeting = json_to_disaggregated_params(payload)?;
    let mut list: Vec<Option<RouterDisaggregatedParams>> = Vec::new();
    let mut i: usize = 0;
    while i < batch_size
        invariant
            i <= batch_size,
            list@.len() == i,
            forall|j: int|
                0 <= j < i ==> optional_meeting(#[trigger] list@[j]) == optional_meeting(meeting),
        decreases batch_size - i,
    {
        list.push(copy_meeting(&meeting));
        i = i + 1;
    }
    proof {
        assert(meetings(list@) =~= repeated(optional_meeting(meeting), batch_size as nat));
    }
    Ok(list)
}

/// The sampling that an object tells.
pub fn json_to_sampling_params(value: &Json) -> (sampling: Result<RouterSamplingParams, String>)
    ensures
        match sampling {
            Ok(params) => sampling_of(value@) == Ok::<Sampling, Seq<char>>(params@),
            Err(message) => sampling_of(value@) == Err::<Sampling, Seq<char>>(message@),
        },
{
    if !value.is_object() {
        return Err("sampling_params must be an object".to_owned());
    }
    let max_new_tokens = optional_i32(value, "max_new_tokens")?;
    let temperature = optional_number(value, "temperature")?;
    let top_p = optional_number(value, "top_p")?;
    let top_k = optional_i32(value, "top_k")?;
    let min_p = optional_number(value, "min_p")?;
    let frequency_penalty = optional_number(value, "frequency_penalty")?;
    let presence_penalty = optional_number(value, "presence_penalty")?;
    let repetition_penalty = optional_number(value, "repetition_penalty")?;
    let stop_token_id = optional_i32(value, "stop_token_id")?;
    let stop_token_ids = match optional_i32_array(value, "stop_token_ids")? {
        Some(list) => list,
        None => Vec::new(),
    };
    let ignore_eos = optional_bool(value, "ignore_eos")?;
    let n = optional_i32(value, "n")?;
    let best_of = optional_i32(value, "best_of")?;
    let sampling = RouterSamplingParams {
        max_new_tokens,
        temperature,
        top_p,
        top_k,
        min_p,
        frequency_penalty,
        presence_penalty,
        repetition_penalty,
        stop_token_id,
        stop_token_ids,
        ignore_eos,
        n,
        best_of,
    };
    proof {
        assert(i32_list_in(value@, "stop_token_ids"@)->Ok_0 is None ==> sampling@.stop_token_ids
            =~= Seq::empty());
    }
    Ok(sampling)
}

/// The sampling of a payload that may not tell it.
pub fn optional_sampling_params(payload: &Json) -> (sampling: Result<
    Option<RouterSamplingParams>,
    String,
>)
    ensures
        match sampling {
            Ok(params) => sampling_in(payload@) == Ok::<Option<Sampling>, Seq<char>>(
                crate::router::optional_sampling(params),
            ),
            Err(message) => sampling_in(payload@) == Err::<Option<Sampling>, Seq<char>>(message@),
        },
{
    match payload.get("sampling_params") {
        None => Ok(None),
        Some(value) => {
            let params = json_to_sampling_params(value)?;
            Ok(Some(params))
        },
    }
}

fn reject_unsupported(payload: &Json, field: &str) -> (checked: Result<(), String>)
    ensures
        match checked {
            Ok(_) => unsupported(payload@, field@) is None,
            Err(message) => unsupported(payload@, field@) == Some(message@),
        },
{
    match payload.get(field) {
        Some(value) => if value.is_null() {
            Ok(())
        } else {
            Err(cat2(field, " is not supported by the current sampling runtime"))
        },
        None => Ok(()),
    }
}

/// Sampling as an OpenAI payload adjusts it.
pub fn apply_openai_sampling_params(payload: &Json, sampling: RouterSamplingParams) -> (adjusted:
    Result<RouterSamplingParams, String>)
    ensures
        match adjusted {
            Ok(params) => openai_sampling(payload@, sampling@) == Ok::<Sampling, Seq<char>>(
                params@,
            ),
            Err(message) => openai_sampling(payload@, sampling@) == Err::<Sampling, Seq<char>>(
                message@,
            ),
        },
{
    let mut adjusted = sampling;
    if let Some(value) = optional_number(payload, "temperature")? {
        adjusted.temperature = Some(value);
    }
    if let Some(value) = optional_number(payload, "top_p")? {
        adjusted.top_p = Some(value);
    }
    if let Some(value) = optional_i32(payload, "top_k")? {
        adjusted.top_k = Some(value);
    }
    if let Some(value) = optional_number(payload, "min_p")? {
        adjusted.min_p = Some(value);
    }
    if let Some(value) = optional_number(payload, "frequency_penalty")? {
        adjusted.frequency_penalty = Some(value);
    }
    if let Some(value) = optional_number(payload, "presence_penalty")? {
        adjusted.presence_penalty = Some(value);
    }
    if let Some(value) = optional_number(payload, "repetition_penalty")? {
        adjusted.repetition_penalty = Some(value);
    }
    if let Some(value) = optional_bool(payload, "ignore_eos")? {
        adjusted.ignore_eos = Some(value);
    }
    if let Some(value) = optional_i32_array(payload, "stop_token_ids")? {
        adjusted.stop_token_ids = value;
    }
    reject_unsupported(payload, "stop")?;
    reject_unsupported(payload, "seed")?;
    reject_unsupported(payload, "logit_bias")?;
    reject_unsupported(payload, "response_format")?;
    reject_unsupported(payload, "best_of")?;
    if let Some(value) = payload.get("logprobs") {
        let off = match value.as_bool() {
            Some(flag) => !flag,
            None => false,
        };
        if !off {
            return Err("logprobs is not supported by the current sampling runtime".to_owned());
        }
    }
    Ok(adjusted)
}

} // verus!
