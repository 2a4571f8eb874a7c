//! What streams, state slots and groups of workers promise over the calls of a session.
use vstd::prelude::*;

use crate::answer_laws::{holds_integer, holds_text, identifies};
use crate::json::JsonView;
use crate::parallel::RankFailure;
use crate::recurrent_state::{RecurrentStateSlotError, RecurrentStateSlots, Slots};
use crate::responses_stream::{
    events, responses_message_id, state_after, ResponsesStreamEncoder, StreamState,
};
use crate::router::RouterGenerateResponse;
use crate::worker_group::{
    command_of, rank_step, shutdown_failure, startup_failure, startup_outcome, step_after_report,
    GroupCall, GroupState, RankCommand, RankEvent, RankStep, WorkerGroupError,
};

verus! {

/// The members have different names.
pub proof fn lemma_session_names()
    ensures
        "id"@.len() == 2,
        "item"@.len() == 4 && "item"@[1] == 't',
        "part"@.len() == 4 && "part"@[1] == 'a',
        "role"@.len() == 4 && "role"@[1] == 'o',
        "text"@.len() == 4 && "text"@[1] == 'e',
        "type"@.len() == 4 && "type"@[1] == 'y',
        "delta"@.len() == 5 && "delta"@[0] == 'd',
        "error"@.len() == 5 && "error"@[0] == 'e',
        "model"@.len() == 5 && "model"@[0] == 'm',
        "usage"@.len() == 5 && "usage"@[0] == 'u',
        "object"@.len() == 6 && "object"@[1] == 'b',
        "output"@.len() == 6 && "output"@[1] == 'u',
        "status"@.len() == 6 && "status"@[1] == 't',
        "content"@.len() == 7 && "content"@[0] == 'c',
        "item_id"@.len() == 7 && "item_id"@[0] == 'i',
        "message"@.len() == 7 && "message"@[0] == 'm',
        "logprobs"@.len() == 8 && "logprobs"@[0] == 'l',
        "response"@.len() == 8 && "response"@[0] == 'r',
        "created_at"@.len() == 10,
        "annotations"@.len() == 11 && "annotations"@[0] == 'a',
        "output_text"@.len() == 11 && "output_text"@[0] == 'o',
        "output_index"@.len() == 12,
        "content_index"@.len() == 13,
        "sequence_number"@.len() == 15,
{
    reveal_strlit("id");
    reveal_strlit("item");
    reveal_strlit("part");
    reveal_strlit("role");
    reveal_strlit("text");
    reveal_strlit("type");
    reveal_strlit("delta");
    reveal_strlit("error");
    reveal_strlit("model");
    reveal_strlit("usage");
    reveal_strlit("object");
    reveal_strlit("output");
    reveal_strlit("status");
    reveal_strlit("content");
    reveal_strlit("item_id");
    reveal_strlit("message");
    reveal_strlit("logprobs");
    reveal_strlit("response");
    reveal_strlit("created_at");
    reveal_strlit("annotations");
    reveal_strlit("output_text");
    reveal_strlit("output_index");
    reveal_strlit("content_index");
    reveal_strlit("sequence_number");
}

/// An event tells its kind and its number.
pub open spec fn is_event(event: JsonView, kind: Seq<char>, number: int) -> bool {
    holds_text(event, "type"@, kind) && holds_integer(event, "sequence_number"@, number)
}

/// The message of a stream is named after the first request of the stream.
pub open spec fn message_of(state: StreamState, response: RouterGenerateResponse) -> Seq<char> {
    if state.response_id.len() == 0 {
        "msg_"@ + response.request_id@
    } else {
        state.item_id
    }
}

/// How many events stand before those of the body of an answer.
pub open spec fn events_before(state: StreamState, response: RouterGenerateResponse) -> int {
    let created: int = if state.response_id.len() == 0 {
        1
    } else {
        0
    };
    if state.open || response.body is Error {
        created
    } else {
        created + 2
    }
}

/// The first answer of a stream creates the response: it is in progress, of the model of the stream,
/// and still empty.
#[verifier::rlimit(40)]
pub proof fn streams_begin_with_their_creation(
    state: StreamState,
    response: RouterGenerateResponse,
    created_at: u64,
    completed_at: u64,
)
    requires
        0 <= state.sequence <= i32::MAX,
        state.response_id.len() == 0,
    ensures
        ({
            let list = events(state, response, created_at, completed_at);
            let told = list[0].get("response"@);
            &&& list.len() > 0
            &&& is_event(list[0], "response.created"@, state.sequence)
            &&& told is Some && told->0.get("id"@) is Some && told->0.get("id"@)->0 is Text
            &&& identifies(told->0.get("id"@)->0->Text_0, "resp-"@, response.request_id@)
            &&& holds_text(told->0, "object"@, "response"@)
            &&& holds_integer(told->0, "created_at"@, created_at as int)
            &&& holds_text(told->0, "status"@, "in_progress"@)
            &&& holds_text(told->0, "model"@, state.model)
            &&& told->0.get("output"@) == Some(JsonView::Array(Seq::empty()))
            &&& holds_text(told->0, "output_text"@, ""@)
        }),
{
    lemma_session_names();
}

/// The first answer that is no failure opens the message of the stream, and then its only part.
#[verifier::rlimit(40)]
pub proof fn messages_are_opened_before_their_text(
    state: StreamState,
    response: RouterGenerateResponse,
    created_at: u64,
    completed_at: u64,
)
    requires
        0 <= state.sequence <= i32::MAX,
        !state.open,
        !(response.body is Error),
    ensures
        ({
            let list = events(state, response, created_at, completed_at);
            let at = events_before(state, response) - 2;
            let item = list[at].get("item"@);
            let part = list[at + 1].get("part"@);
            &&& at + 1 < list.len()
            &&& is_event(list[at], "response.output_item.added"@, state.sequence + at)
            &&& holds_integer(list[at], "output_index"@, 0)
            &&& item is Some && holds_text(item->0, "id"@, message_of(state, response))
            &&& holds_text(item->0, "type"@, "message"@)
            &&& holds_text(item->0, "status"@, "in_progress"@)
            &&& holds_text(item->0, "role"@, "assistant"@)
            &&& item->0.get("content"@) == Some(JsonView::Array(Seq::empty()))
            &&& is_event(list[at + 1], "response.content_part.added"@, state.sequence + at + 1)
            &&& holds_text(list[at + 1], "item_id"@, message_of(state, response))
            &&& part is Some && holds_text(part->0, "type"@, "output_text"@)
            &&& holds_text(part->0, "text"@, ""@)
        }),
{
    lemma_session_names();
}

/// A piece of text is told as one event, behind those that open the message; an empty piece is not
/// told.
#[verifier::rlimit(40)]
pub proof fn pieces_are_told_once(
    state: StreamState,
    response: RouterGenerateResponse,
    created_at: u64,
    completed_at: u64,
)
    requires
        0 <= state.sequence <= i32::MAX,
        response.body is Chunk,
    ensures
        ({
            let list = events(state, response, created_at, completed_at);
            let at = events_before(state, response);
            let chunk = response.body->Chunk_0;
            if chunk.text@.len() == 0 {
                list.len() == at
            } else {
                &&& list.len() == at + 1
                &&& is_event(list[at], "response.output_text.delta"@, state.sequence + at)
                &&& holds_text(list[at], "delta"@, chunk.text@)
                &&& holds_text(list[at], "item_id"@, message_of(state, response))
                &&& holds_integer(list[at], "output_index"@, chunk.index as int)
                &&& holds_integer(list[at], "content_index"@, 0)
            }
        }),
{
    lemma_session_names();
}

/// The last answer tells the whole text: first as the text, then as the part, then as the message,
/// and at last within the completed response.
#[verifier::rlimit(100)]
pub proof fn endings_tell_the_whole_text(
    state: StreamState,
    response: RouterGenerateResponse,
    created_at: u64,
    completed_at: u64,
)
    requires
        0 <= state.sequence <= i32::MAX,
        response.body is Complete,
    ensures
        ({
            let list = events(state, response, created_at, completed_at);
            let at = events_before(state, response);
            let complete = response.body->Complete_0;
            let part = list[at + 1].get("part"@);
            let item = list[at + 2].get("item"@);
            let told = list[at + 3].get("response"@);
            &&& list.len() == at + 4
            &&& is_event(list[at], "response.output_text.done"@, state.sequence + at)
            &&& holds_text(list[at], "text"@, complete.text@)
            &&& holds_text(list[at], "item_id"@, message_of(state, response))
            &&& holds_integer(list[at], "output_index"@, complete.index as int)
            &&& is_event(list[at + 1], "response.content_part.done"@, state.sequence + at + 1)
            &&& holds_text(list[at + 1], "item_id"@, message_of(state, response))
            &&& part is Some && holds_text(part->0, "text"@, complete.text@)
            &&& is_event(list[at + 2], "response.output_item.done"@, state.sequence + at + 2)
            &&& item is Some && holds_text(item->0, "id"@, message_of(state, response))
            &&& holds_text(item->0, "status"@, "completed"@)
            &&& holds_text(item->0, "role"@, "assistant"@)
            &&& is_event(list[at + 3], "response.completed"@, state.sequence + at + 3)
            &&& told is Some && holds_text(told->0, "output_text"@, complete.text@)
            &&& holds_text(told->0, "status"@, "completed"@)
            &&& holds_text(told->0, "model"@, state.model)
            &&& holds_integer(told->0, "created_at"@, completed_at as int)
        }),
{
    lemma_session_names();
}

/// A failure is told by its message, and opens nothing.
#[verifier::rlimit(40)]
pub proof fn failures_end_a_stream(
    state: StreamState,
    response: RouterGenerateResponse,
    created_at: u64,
    completed_at: u64,
)
    requires
        0 <= state.sequence <= i32::MAX,
        response.body is Error,
    ensures
        ({
            let list = events(state, response, created_at, completed_at);
            let at = events_before(state, response);
            let error = list[at].get("error"@);
            &&& list.len() == at + 1
            &&& is_event(list[at], "response.failed"@, state.sequence + at)
            &&& error is Some && holds_text(
                error->0,
                "message"@,
                response.body->Error_0.message@,
            )
        }),
{
    lemma_session_names();
}

/// A new stream has told nothing: its first event has the number zero.
pub proof fn new_streams_start_at_zero(model: String, encoder: ResponsesStreamEncoder)
    requires
        call_ensures(ResponsesStreamEncoder::new, (model,), encoder),
    ensures
        encoder@.model == model@,
        encoder@.sequence == 0,
        !encoder@.open,
        encoder@.response_id.len() == 0,
{
}

/// A stream keeps its model and its names, and counts the events that it has told.
pub proof fn streams_keep_their_names(
    state: StreamState,
    response: RouterGenerateResponse,
    count: int,
)
    ensures
        ({
            let after = state_after(state, response, count);
            &&& after.sequence == state.sequence + count
            &&& after.model == state.model
            &&& state.response_id.len() > 0 ==> after.response_id == state.response_id
                && after.item_id == state.item_id
            &&& state.response_id.len() == 0 ==> identifies(
                after.response_id,
                "resp-"@,
                response.request_id@,
            ) && after.item_id == "msg_"@ + response.request_id@
            &&& state.open ==> after.open
        }),
{
}

/// The message of a response is named after its request.
pub proof fn messages_are_named_after_their_request(request_id: &str, id: String)
    requires
        call_ensures(responses_message_id, (request_id,), id),
    ensures
        id@ == "msg_"@ + request_id@,
{
}

/// The first slot that is given is slot zero, and a table has as many as it was made for.
pub proof fn slots_are_given_from_zero_on(
    capacity: usize,
    slots: Result<RecurrentStateSlots, RecurrentStateSlotError>,
    id: Seq<char>,
)
    requires
        call_ensures(RecurrentStateSlots::new, (capacity,), slots),
    ensures
        slots is Ok <==> 0 < capacity <= u32::MAX,
        slots matches Ok(made) ==> {
            &&& made@.capacity == capacity && made@.free.len() == capacity
            &&& made@.with(id).assigned.dom().contains(id)
            &&& made@.with(id).assigned[id] == 0
            &&& made@.with(id).free.len() == capacity - 1
        },
        capacity == 0 ==> slots is Err && slots->Err_0 is ZeroCapacity,
        capacity > u32::MAX ==> slots is Err && slots->Err_0 is CapacityTooLarge,
{
    if let Ok(made) = slots {
        assert(made@.free.last() == 0);
    }
}

/// A request without a slot gets one that was free, and no other request loses its own.
pub proof fn given_slots_were_free(slots: Slots, id: Seq<char>, other: Seq<char>)
    requires
        slots.free.len() > 0,
        !slots.assigned.dom().contains(id),
    ensures
        slots.with(id).assigned.dom().contains(id),
        slots.free.contains(slots.with(id).assigned[id]),
        slots.with(id).free.len() == slots.free.len() - 1,
        other != id && slots.assigned.dom().contains(other) ==> slots.with(id).assigned[other]
            == slots.assigned[other],
        slots.given(seq![id]) == seq![slots.with(id).assigned[id]],
{
    assert(slots.free[slots.free.len() - 1] == slots.free.last());
    let ids = seq![id];
    assert(ids.drop_last() =~= Seq::empty());
    reveal_with_fuel(Slots::with_all, 2);
    reveal_with_fuel(Slots::given, 2);
    assert(slots.with_all(ids.drop_last()) == slots);
    assert(slots.given(ids) =~= seq![slots.with(id).assigned[id]]);
}

/// The commands of a group are numbered from one on, each one further than the last; after the
/// greatest number comes zero.
pub proof fn commands_are_numbered(state: GroupState, launched: GroupState)
    requires
        call_ensures(GroupState::launched, (), launched),
    ensures
        launched.next_sequence == 1 && !launched.shutdown,
        !state.shutdown && state.next_sequence < u64::MAX ==> state.after_execution().next_sequence
            == state.next_sequence + 1 && state.after_shutdown().next_sequence
            == state.next_sequence + 1,
        !state.shutdown && state.next_sequence == u64::MAX
            ==> state.after_execution().next_sequence == 0,
        !state.shutdown ==> !state.after_execution().shutdown && state.after_shutdown().shutdown,
        state.shutdown ==> state.after_execution() == state && state.after_shutdown() == state,
{
}

/// A rank that is told to execute does, under the number of the command; one that is told to stop, or
/// is told nothing any more, stops.
pub proof fn ranks_do_as_they_are_told<C>(told: Option<RankCommand<C>>, step: RankStep<C>)
    requires
        call_ensures(rank_step::<C>, (told,), step),
    ensures
        told matches Some(RankCommand::Execute { sequence, command }) ==> step
            == (RankStep::Execute { sequence, command }),
        told matches Some(RankCommand::Shutdown { sequence }) ==> step == (RankStep::<C>::Stop {
            sequence: Some(sequence),
        }),
        told is None ==> step == (RankStep::<C>::Stop { sequence: None }),
{
}

/// A rank goes on after a report that was taken, and stops after one that was not.
pub proof fn ranks_stop_when_nobody_listens<C>(delivered: bool, step: Option<RankStep<C>>)
    requires
        call_ensures(step_after_report::<C>, (delivered,), step),
    ensures
        delivered <==> step is None,
        step matches Some(next) ==> next == (RankStep::<C>::Stop { sequence: None }),
{
}

/// A group that is up sends every call under its next number, and one that is down sends none.
pub proof fn calls_are_sent_while_the_group_is_up<C>(state: GroupState, call: GroupCall<C>)
    ensures
        state.shutdown ==> command_of(state, call) is None,
        !state.shutdown ==> match call {
            GroupCall::Execute(command) => command_of(state, call) == Some(
                RankCommand::Execute { sequence: state.next_sequence, command },
            ),
            GroupCall::Shutdown => command_of(state, call) == Some(
                RankCommand::<C>::Shutdown { sequence: state.next_sequence },
            ),
        },
{
}

/// A rank has started where it says that it is ready. Whatever else it says while starting is a
/// failure of that rank.
pub proof fn ranks_start_when_they_are_ready<O>(event: RankEvent<O>)
    ensures
        startup_failure(event) is None <==> event is Ready,
        event matches RankEvent::StartupFailed { rank, message } ==> startup_failure(event) is Some
            && startup_failure(event)->0.rank == rank && startup_failure(event)->0.message
            == message@,
{
}

/// A rank has stopped well where it says so for the shutdown that was asked for. Whatever else it says
/// is a failure.
pub proof fn ranks_stop_when_they_are_asked<O>(event: RankEvent<O>, sequence: u64)
    ensures
        shutdown_failure(event, sequence) is None <==> (event matches RankEvent::Stopped {
            rank,
            sequence: answered,
            result,
        } && answered == sequence && result is Ok),
{
}

/// A start with one failure is a failure.
pub proof fn starts_need_every_rank(
    failures: Vec<RankFailure>,
    outcome: Result<(), WorkerGroupError>,
)
    requires
        call_ensures(startup_outcome, (failures,), outcome),
    ensures
        outcome is Ok <==> failures@.len() == 0,
{
}

} // verus!
