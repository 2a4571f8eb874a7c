//! What a group of rank workers makes of the events of its ranks.
use vstd::prelude::*;
use vstd::string::*;

use crate::parallel::{
    failure_views, Answer, Failure, RankFailure, RankOutput, TensorParallelRank,
};
use crate::text::{cat2, cat3, cat4, cat6, decimal, decimal_u64, decimal_usize};

verus! {

/// What went wrong in a group of rank workers.
#[derive(Clone, Debug, PartialEq, Eq)]
pub enum WorkerGroupError {
    ThreadSpawn { rank: TensorParallelRank, message: String },
    RankFailures { stage: &'static str, failures: Vec<RankFailure> },
    EventChannelClosed { stage: &'static str },
    UnexpectedEvent { stage: &'static str, detail: String },
    AlreadyShutdown,
}

/// What a [`WorkerGroupError`] says.
pub enum GroupFault {
    ThreadSpawn { rank: TensorParallelRank, message: Seq<char> },
    RankFailures { stage: Seq<char>, failures: Seq<Failure> },
    EventChannelClosed { stage: Seq<char> },
    UnexpectedEvent { stage: Seq<char>, detail: Seq<char> },
    AlreadyShutdown,
}

impl View for WorkerGroupError {
    type V = GroupFault;

    open spec fn view(&self) -> GroupFault {
        match *self {
            WorkerGroupError::ThreadSpawn { rank, message } => GroupFault::ThreadSpawn {
                rank,
                message: message@,
            },
            WorkerGroupError::RankFailures { stage, failures } => GroupFault::RankFailures {
                stage: stage@,
                failures: failure_views(failures@),
            },
            WorkerGroupError::EventChannelClosed { stage } => GroupFault::EventChannelClosed {
                stage: stage@,
            },
            WorkerGroupError::UnexpectedEvent { stage, detail } => GroupFault::UnexpectedEvent {
                stage: stage@,
                detail: detail@,
            },
            WorkerGroupError::AlreadyShutdown => GroupFault::AlreadyShutdown,
        }
    }
}

/// The part of a message that tells of the failures.
pub open spec fn failures_text(failures: Seq<Failure>) -> Seq<char>
    decreases failures.len(),
{
    if failures.len() == 0 {
        Seq::empty()
    } else {
        let failure = failures.last();
        failures_text(failures.drop_last()) + ("; rank "@ + decimal(failure.rank@.global)
            + " on device "@ + decimal(failure.rank@.device) + ": "@ + failure.message)
    }
}

/// The message that a fault of a group is reported with.
pub open spec fn group_fault_message(fault: GroupFault) -> Seq<char> {
    match fault {
        GroupFault::ThreadSpawn { rank, message } => "failed to spawn tensor parallel rank "@
            + decimal(rank@.global) + " on device "@ + decimal(rank@.device) + ": "@ + message,
        GroupFault::RankFailures { stage, failures } => "worker group "@ + stage + " failed"@
            + failures_text(failures),
        GroupFault::EventChannelClosed { stage } =>
            "worker group event channel closed during "@ + stage,
        GroupFault::UnexpectedEvent { stage, detail } =>
            "worker group received an unexpected event during "@ + stage + ": "@ + detail,
        GroupFault::AlreadyShutdown => "worker group is already shut down"@,
    }
}

impl WorkerGroupError {
    /// The message that the error is reported with.
    pub fn to_string(&self) -> (message: String)
        ensures
            message@ == group_fault_message(self@),
    {
        match self {
            WorkerGroupError::ThreadSpawn { rank, message } => cat6(
                "failed to spawn tensor parallel rank ",
                decimal_usize(rank.global_rank()).as_str(),
                " on device ",
                decimal_usize(rank.device_ordinal()).as_str(),
                ": ",
                message.as_str(),
            ),
            WorkerGroupError::RankFailures { stage, failures } => {
                let mut tail = String::new();
                let ghost all = failure_views(failures@);
                let mut i: usize = 0;
                proof {
                    assert(tail@ =~= failures_text(all.take(0)));
                }
                while i < failures.len()
                    invariant
                        i <= failures@.len(),
                        all == failure_views(failures@),
                        tail@ == failures_text(all.take(i as int)),
                    decreases failures@.len() - i,
                {
                    let failure = &failures[i];
                    let entry = cat6(
                        "; rank ",
                        decimal_usize(failure.rank.global_rank()).as_str(),
                        " on device ",
                        decimal_usize(failure.rank.device_ordinal()).as_str(),
                        ": ",
                        failure.message.as_str(),
                    );
                    tail.append(entry.as_str());
                    proof {
                        assert(all.take(i + 1).drop_last() =~= all.take(i as int));
                    }
                    i = i + 1;
                }
                proof {
                    assert(all.take(i as int) =~= all);
                }
                cat4("worker group ", stage, " failed", tail.as_str())
            },
            WorkerGroupError::EventChannelClosed { stage } => cat2(
                "worker group event channel closed during ",
                stage,
            ),
            WorkerGroupError::UnexpectedEvent { stage, detail } => cat4(
                "worker group received an unexpected event during ",
                stage,
                ": ",
                detail.as_str(),
            ),
            WorkerGroupError::AlreadyShutdown => "worker group is already shut down".to_owned(),
        }
    }
}

/// What a rank is told.
#[derive(Clone, Debug)]
pub enum RankCommand<C> {
    Execute { sequence: u64, command: C },
    Shutdown { sequence: u64 },
}

/// What a rank reports.
#[derive(Debug)]
pub enum RankEvent<O> {
    Ready { rank: TensorParallelRank },
    StartupFailed { rank: TensorParallelRank, message: String },
    Executed { rank: TensorParallelRank, sequence: u64, result: Result<O, String> },
    Stopped { rank: TensorParallelRank, sequence: u64, result: Result<(), String> },
}

impl<O> RankEvent<O> {
    /// The rank that reports.
    pub open spec fn from(self) -> TensorParallelRank {
        match self {
            RankEvent::Ready { rank } => rank,
            RankEvent::StartupFailed { rank, message } => rank,
            RankEvent::Executed { rank, sequence, result } => rank,
            RankEvent::Stopped { rank, sequence, result } => rank,
        }
    }

    /// The command that the event answers.
    pub open spec fn answers(self) -> Option<u64> {
        match self {
            RankEvent::Executed { rank, sequence, result } => Some(sequence),
            RankEvent::Stopped { rank, sequence, result } => Some(sequence),
            _ => None,
        }
    }

    /// The name of the event.
    pub open spec fn named(self) -> Seq<char> {
        match self {
            RankEvent::Ready { rank } => "ready"@,
            RankEvent::StartupFailed { rank, message } => "startup-failed"@,
            RankEvent::Executed { rank, sequence, result } => "executed"@,
            RankEvent::Stopped { rank, sequence, result } => "stopped"@,
        }
    }

    /// The rank that reports.
    pub fn rank(&self) -> (rank: TensorParallelRank)
        ensures
            rank == self.from(),
    {
        match self {
            RankEvent::Ready { rank } => *rank,
            RankEvent::StartupFailed { rank, .. } => *rank,
            RankEvent::Executed { rank, .. } => *rank,
            RankEvent::Stopped { rank, .. } => *rank,
        }
    }

    /// The command that the event answers.
    pub fn sequence(&self) -> (sequence: Option<u64>)
        ensures
            sequence == self.answers(),
    {
        match self {
            RankEvent::Executed { sequence, .. } => Some(*sequence),
            RankEvent::Stopped { sequence, .. } => Some(*sequence),
            _ => None,
        }
    }

    /// The name of the event.
    pub fn name(&self) -> (name: &'static str)
        ensures
            name@ == self.named(),
    {
        match self {
            RankEvent::Ready { .. } => "ready",
            RankEvent::StartupFailed { .. } => "startup-failed",
            RankEvent::Executed { .. } => "executed",
            RankEvent::Stopped { .. } => "stopped",
        }
    }
}

/// How an optional number is written for debugging.
pub open spec fn optional_number(n: Option<u64>) -> Seq<char> {
    match n {
        Some(value) => "Some("@ + decimal(value as nat) + ")"@,
        None => "None"@,
    }
}

fn optional_number_text(n: Option<u64>) -> (text: String)
    ensures
        text@ == optional_number(n),
{
    match n {
        Some(value) => cat3("Some(", decimal_u64(value).as_str(), ")"),
        None => "None".to_owned(),
    }
}

/// The numbering of a group's commands, and whether the group was shut down.
#[derive(Clone, Copy, Debug)]
pub struct GroupState {
    pub next_sequence: u64,
    pub shutdown: bool,
}

/// The number after `sequence`; the largest is followed by zero.
pub open spec fn following(sequence: u64) -> u64 {
    if sequence == u64::MAX {
        0
    } else {
        (sequence + 1) as u64
    }
}

impl GroupState {
    /// The group after it was asked to execute a command.
    pub open spec fn after_execution(self) -> GroupState {
        if self.shutdown {
            self
        } else {
            GroupState { next_sequence: following(self.next_sequence), ..self }
        }
    }

    /// The group after it was asked to shut down.
    pub open spec fn after_shutdown(self) -> GroupState {
        if self.shutdown {
            self
        } else {
            GroupState { next_sequence: following(self.next_sequence), shutdown: true }
        }
    }

    /// A group that was just launched.
    pub fn launched() -> (state: Self)
        ensures
            state == launched_group(),
    {
        GroupState { next_sequence: 1, shutdown: false }
    }

    /// The number of the next command.
    pub fn take_sequence(&mut self) -> (sequence: u64)
        ensures
            sequence == old(self).next_sequence,
            *final(self) == (GroupState {
                next_sequence: following(old(self).next_sequence),
                ..*old(self)
            }),
    {
        let sequence: u64 = self.next_sequence;
        self.next_sequence = self.next_sequence.wrapping_add(1);
        sequence
    }

    /// The number of a command to be executed, unless the group was shut down.
    pub fn begin_execution(&mut self) -> (sequence: Result<u64, WorkerGroupError>)
        ensures
            match sequence {
                Ok(n) => !old(self).shutdown && n == old(self).next_sequence,
                Err(error) => old(self).shutdown && error@ == GroupFault::AlreadyShutdown,
            },
            *final(self) == old(self).after_execution(),
    {
        if self.shutdown {
            return Err(WorkerGroupError::AlreadyShutdown);
        }
        Ok(self.take_sequence())
    }

    /// The number of the command that shuts the group down, unless it was shut down before.
    pub fn begin_shutdown(&mut self) -> (sequence: Option<u64>)
        ensures
            match sequence {
                Some(n) => !old(self).shutdown && n == old(self).next_sequence,
                None => old(self).shutdown,
            },
            *final(self) == old(self).after_shutdown(),
    {
        if self.shutdown {
            return None;
        }
        self.shutdown = true;
        Some(self.take_sequence())
    }
}

/// A group that was just launched.
pub open spec fn launched_group() -> GroupState {
    GroupState { next_sequence: 1, shutdown: false }
}

/// What a group is asked to do.
pub enum GroupCall<C> {
    Execute(C),
    Shutdown,
}

/// What every rank is told when a group is asked to do something; nothing after a shutdown.
pub open spec fn command_of<C>(state: GroupState, call: GroupCall<C>) -> Option<RankCommand<C>> {
    if state.shutdown {
        None
    } else {
        match call {
            GroupCall::Execute(command) => Some(
                RankCommand::Execute { sequence: state.next_sequence, command },
            ),
            GroupCall::Shutdown => Some(RankCommand::Shutdown { sequence: state.next_sequence }),
        }
    }
}

/// The group after it was asked to do something.
pub open spec fn after_call<C>(state: GroupState, call: GroupCall<C>) -> GroupState {
    match call {
        GroupCall::Execute(_) => state.after_execution(),
        GroupCall::Shutdown => state.after_shutdown(),
    }
}

/// The group after it was asked to do several things.
pub open spec fn after_calls<C>(state: GroupState, calls: Seq<GroupCall<C>>) -> GroupState
    decreases calls.len(),
{
    if calls.len() == 0 {
        state
    } else {
        after_calls(after_call(state, calls[0]), calls.skip(1))
    }
}

/// What every rank is told when a group is asked to do several things.
pub open spec fn commands_of<C>(state: GroupState, calls: Seq<GroupCall<C>>) -> Seq<RankCommand<C>>
    decreases calls.len(),
{
    if calls.len() == 0 {
        Seq::empty()
    } else {
        let rest = commands_of(after_call(state, calls[0]), calls.skip(1));
        match command_of(state, calls[0]) {
            Some(command) => seq![command] + rest,
            None => rest,
        }
    }
}

/// What a rank does next.
#[derive(Debug)]
pub enum RankStep<C> {
    /// It executes the command, and reports what came of it.
    Execute { sequence: u64, command: C },
    /// It shuts its worker down, and is done; a number is that of the command that it reports to.
    Stop { sequence: Option<u64> },
}

/// What a rank does about what it is told; nothing more can come where it is told nothing.
pub open spec fn next_step<C>(told: Option<RankCommand<C>>) -> RankStep<C> {
    match told {
        Some(RankCommand::Execute { sequence, command }) => RankStep::Execute { sequence, command },
        Some(RankCommand::Shutdown { sequence }) => RankStep::Stop { sequence: Some(sequence) },
        None => RankStep::Stop { sequence: None },
    }
}

/// What a rank does about what it is told.
pub fn rank_step<C>(told: Option<RankCommand<C>>) -> (step: RankStep<C>)
    ensures
        step == next_step(told),
{
    match told {
        Some(RankCommand::Execute { sequence, command }) => RankStep::Execute { sequence, command },
        Some(RankCommand::Shutdown { sequence }) => RankStep::Stop { sequence: Some(sequence) },
        None => RankStep::Stop { sequence: None },
    }
}

/// What a rank does once it has reported: it goes on, or, where nobody took the report, it stops.
pub fn step_after_report<C>(delivered: bool) -> (step: Option<RankStep<C>>)
    ensures
        step == (if delivered {
            None::<RankStep<C>>
        } else {
            Some(next_step::<C>(None))
        }),
{
    if delivered {
        None
    } else {
        Some(RankStep::Stop { sequence: None })
    }
}

/// How often a rank shuts its worker down about what it is told; `delivered` says of the first
/// reports whether somebody took them, and the others are taken.
pub open spec fn worker_shutdowns<C>(commands: Seq<RankCommand<C>>, delivered: Seq<bool>) -> nat
    decreases commands.len(),
{
    if commands.len() == 0 {
        0
    } else {
        match next_step(Some(commands[0])) {
            RankStep::Stop { .. } => 1,
            RankStep::Execute { .. } => if delivered.len() == 0 {
                worker_shutdowns(commands.skip(1), delivered)
            } else if delivered[0] {
                worker_shutdowns(commands.skip(1), delivered.skip(1))
            } else {
                1
            },
        }
    }
}

/// What a rank executes of what it is told, as long as its reports are taken.
pub open spec fn worker_executions<C>(commands: Seq<RankCommand<C>>) -> Seq<C>
    decreases commands.len(),
{
    if commands.len() == 0 {
        Seq::empty()
    } else {
        match next_step(Some(commands[0])) {
            RankStep::Stop { .. } => Seq::empty(),
            RankStep::Execute { command, .. } => seq![command] + worker_executions(
                commands.skip(1),
            ),
        }
    }
}

/// Whether a group is asked to shut down.
pub open spec fn asks_shutdown<C>(calls: Seq<GroupCall<C>>) -> bool {
    exists|i: int| 0 <= i < calls.len() && #[trigger] calls[i] is Shutdown
}

/// The commands that a group is asked to execute before it is asked to shut down.
pub open spec fn executions_before_shutdown<C>(calls: Seq<GroupCall<C>>) -> Seq<C>
    decreases calls.len(),
{
    if calls.len() == 0 {
        Seq::empty()
    } else {
        match calls[0] {
            GroupCall::Execute(command) => seq![command] + executions_before_shutdown(
                calls.skip(1),
            ),
            GroupCall::Shutdown => Seq::empty(),
        }
    }
}

proof fn lemma_silent_after_shutdown<C>(state: GroupState, calls: Seq<GroupCall<C>>)
    requires
        state.shutdown,
    ensures
        commands_of(state, calls) == Seq::<RankCommand<C>>::empty(),
        after_calls(state, calls) == state,
    decreases calls.len(),
{
    if calls.len() > 0 {
        lemma_silent_after_shutdown(state, calls.skip(1));
    }
}

/// Whatever a group is asked to do, and however often it is asked to shut down, each of its ranks
/// shuts its worker down once, and not at all before the group is asked to where its reports are
/// taken; each executes the commands from before the shutdown and none from behind it, and the group
/// is shut down from then on.
pub proof fn workers_are_shut_down_once<C>(
    state: GroupState,
    calls: Seq<GroupCall<C>>,
    delivered: Seq<bool>,
)
    requires
        !state.shutdown,
    ensures
        asks_shutdown(calls) ==> worker_shutdowns(commands_of(state, calls), delivered) == 1,
        !asks_shutdown(calls) && (forall|i: int|
            0 <= i < delivered.len() ==> #[trigger] delivered[i]) ==> worker_shutdowns(
            commands_of(state, calls),
            delivered,
        ) == 0,
        worker_executions(commands_of(state, calls)) == executions_before_shutdown(calls),
        after_calls(state, calls).shutdown == asks_shutdown(calls),
    decreases calls.len(),
{
    if calls.len() > 0 {
        let rest = calls.skip(1);
        let next = after_call(state, calls[0]);
        let commands = commands_of(state, calls);
        let later = commands_of(next, rest);
        match calls[0] {
            GroupCall::Execute(command) => {
                let after = if delivered.len() > 0 {
                    delivered.skip(1)
                } else {
                    delivered
                };
                workers_are_shut_down_once(next, rest, after);
                if asks_shutdown(rest) {
                    let i = choose|i: int| 0 <= i < rest.len() && #[trigger] rest[i] is Shutdown;
                    assert(calls[i + 1] is Shutdown);
                }
                if asks_shutdown(calls) {
                    let i = choose|i: int| 0 <= i < calls.len() && #[trigger] calls[i] is Shutdown;
                    assert(rest[i - 1] is Shutdown);
                }
                assert(commands.skip(1) =~= later);
                if delivered.len() > 0 && forall|i: int|
                    0 <= i < delivered.len() ==> #[trigger] delivered[i] {
                    assert forall|i: int| 0 <= i < after.len() implies #[trigger] after[i] by {
                        assert(delivered[i + 1]);
                    }
                }
            },
            GroupCall::Shutdown => {
                lemma_silent_after_shutdown(next, rest);
                assert(calls[0] is Shutdown);
            },
        }
    }
}

/// The failure that an event during startup tells of.
pub open spec fn startup_failure<O>(event: RankEvent<O>) -> Option<Failure> {
    match event {
        RankEvent::Ready { rank } => None,
        RankEvent::StartupFailed { rank, message } => Some(Failure { rank, message: message@ }),
        _ => Some(
            Failure {
                rank: event.from(),
                message: "unexpected startup event: "@ + event.named(),
            },
        ),
    }
}

/// Takes in an event during startup.
pub fn startup_event<O>(failures: &mut Vec<RankFailure>, event: RankEvent<O>)
    ensures
        failure_views(final(failures)@) == (match startup_failure(event) {
            Some(failure) => failure_views(old(failures)@).push(failure),
            None => failure_views(old(failures)@),
        }),
{
    let ghost before = failure_views(failures@);
    let failure = match event {
        RankEvent::Ready { .. } => {
            return ;
        },
        RankEvent::StartupFailed { rank, message } => RankFailure { rank, message },
        other => RankFailure {
            rank: other.rank(),
            message: cat2("unexpected startup event: ", other.name()),
        },
    };
    failures.push(failure);
    proof {
        assert(failure_views(failures@) =~= before.push(failure@));
    }
}

/// Whether startup succeeded: no rank has failed.
pub fn startup_outcome(failures: Vec<RankFailure>) -> (outcome: Result<(), WorkerGroupError>)
    ensures
        match outcome {
            Ok(_) => failures@.len() == 0,
            Err(error) => failures@.len() > 0 && error@ == (GroupFault::RankFailures {
                stage: "startup"@,
                failures: failure_views(failures@),
            }),
        },
{
    if failures.len() == 0 {
        Ok(())
    } else {
        Err(WorkerGroupError::RankFailures { stage: "startup", failures })
    }
}

/// What the ranks have answered to one command so far.
#[derive(Debug)]
pub struct Execution<O> {
    sequence: u64,
    outputs: Vec<RankOutput<O>>,
    failures: Vec<RankFailure>,
}

/// What an [`Execution`] holds.
pub struct Answers<O> {
    pub sequence: u64,
    pub outputs: Seq<RankOutput<O>>,
    pub failures: Seq<Failure>,
}

impl<O> View for Execution<O> {
    type V = Answers<O>;

    closed spec fn view(&self) -> Answers<O> {
        Answers {
            sequence: self.sequence,
            outputs: self.outputs@,
            failures: failure_views(self.failures@),
        }
    }
}

/// What is said of an event that answers no running command.
pub open spec fn unexpected_detail<O>(event: RankEvent<O>, sequence: u64) -> Seq<char> {
    event.named() + " from rank "@ + decimal(event.from()@.global) + " for sequence "@
        + optional_number(event.answers()) + ", expected "@ + decimal(sequence as nat)
}

/// The answers with `answer` put behind those of smaller or equal ranks.
pub open spec fn placed<O>(answers: Seq<RankOutput<O>>, answer: RankOutput<O>) -> Seq<RankOutput<O>>
    decreases answers.len(),
{
    if answers.len() == 0 {
        seq![answer]
    } else if answers.last()@.rank@.global <= answer@.rank@.global {
        answers.push(answer)
    } else {
        placed(answers.drop_last(), answer).push(answers.last())
    }
}

/// The answers in the order of their ranks; answers of one rank keep their order.
pub open spec fn by_rank<O>(answers: Seq<RankOutput<O>>) -> Seq<RankOutput<O>>
    decreases answers.len(),
{
    if answers.len() == 0 {
        Seq::empty()
    } else {
        placed(by_rank(answers.drop_last()), answers.last())
    }
}

/// Whether the answers are in the order of their ranks.
pub open spec fn in_rank_order<O>(answers: Seq<RankOutput<O>>) -> bool {
    forall|i: int, j: int|
        0 <= i < j < answers.len() ==> #[trigger] answers[i]@.rank@.global
            <= #[trigger] answers[j]@.rank@.global
}

proof fn lemma_placed<O>(answers: Seq<RankOutput<O>>, answer: RankOutput<O>)
    requires
        in_rank_order(answers),
    ensures
        in_rank_order(placed(answers, answer)),
        placed(answers, answer).to_multiset() == answers.to_multiset().insert(answer),
        placed(answers, answer).len() == answers.len() + 1,
        forall|i: int|
            0 <= i < placed(answers, answer).len() ==> (#[trigger] placed(answers, answer)[i]
                == answer || answers.contains(placed(answers, answer)[i])),
    decreases answers.len(),
{
    broadcast use vstd::seq_lib::group_to_multiset_ensures;

    let result = placed(answers, answer);
    if answers.len() == 0 {
        assert(result =~= Seq::<RankOutput<O>>::empty().push(answer));
        assert(answers =~= Seq::empty());
    } else if answers.last()@.rank@.global <= answer@.rank@.global {
        assert forall|i: int, j: int| 0 <= i < j < result.len() implies #[trigger] result[i]@.rank@.global
            <= #[trigger] result[j]@.rank@.global by {
            let n = answers.len() - 1;
            if j < answers.len() {
                assert(answers[i]@.rank@.global <= answers[j]@.rank@.global);
            } else if i < n {
                assert(answers[i]@.rank@.global <= answers[n]@.rank@.global);
            }
        }
    } else {
        let front = answers.drop_last();
        let last = answers.last();
        lemma_placed(front, answer);
        let inner = placed(front, answer);
        assert(answers =~= front.push(last));
        assert(answers.to_multiset() == front.to_multiset().insert(last));
        assert(result.to_multiset() == inner.to_multiset().insert(last));
        assert(front.to_multiset().insert(answer).insert(last) =~= front.to_multiset().insert(
            last,
        ).insert(answer));
        assert forall|i: int| 0 <= i < inner.len() implies (#[trigger] inner[i])@.rank@.global
            <= last@.rank@.global by {
            if inner[i] != answer {
                let k = choose|k: int| 0 <= k < front.len() && front[k] == inner[i];
                assert(answers[k]@.rank@.global <= answers[answers.len() - 1]@.rank@.global);
            }
        }
        assert forall|i: int, j: int| 0 <= i < j < result.len() implies #[trigger] result[i]@.rank@.global
            <= #[trigger] result[j]@.rank@.global by {
            assert(result[i] == inner[i]);
            if j < inner.len() {
                assert(result[j] == inner[j]);
            }
        }
        assert forall|i: int| 0 <= i < result.len() implies (#[trigger] result[i] == answer
            || answers.contains(result[i])) by {
            if i < inner.len() {
                assert(result[i] == inner[i]);
                if inner[i] != answer {
                    let k = choose|k: int| 0 <= k < front.len() && front[k] == inner[i];
                    assert(answers[k] == inner[i]);
                }
            } else {
                assert(answers[answers.len() - 1] == result[i]);
            }
        }
    }
}

/// Ordering answers by rank puts them in the order of their ranks and loses none.
pub proof fn answers_are_ordered<O>(answers: Seq<RankOutput<O>>)
    ensures
        in_rank_order(by_rank(answers)),
        by_rank(answers).to_multiset() == answers.to_multiset(),
        by_rank(answers).len() == answers.len(),
    decreases answers.len(),
{
    broadcast use vstd::seq_lib::group_to_multiset_ensures;

    if answers.len() > 0 {
        let front = answers.drop_last();
        answers_are_ordered(front);
        lemma_placed(by_rank(front), answers.last());
        assert(answers =~= front.push(answers.last()));
    } else {
        assert(answers =~= Seq::empty());
    }
}

fn place_by_rank<O>(answers: Vec<RankOutput<O>>, answer: RankOutput<O>) -> (all: Vec<RankOutput<O>>)
    ensures
        all@ == placed(answers@, answer),
    decreases answers@.len(),
{
    let mut rest = answers;
    match rest.pop() {
        None => {
            let mut all: Vec<RankOutput<O>> = Vec::new();
            all.push(answer);
            proof {
                assert(all@ =~= seq![answer]);
            }
            all
        },
        Some(last) => {
            proof {
                assert(rest@ =~= answers@.drop_last());
            }
            if last.rank().global_rank() <= answer.rank().global_rank() {
                rest.push(last);
                rest.push(answer);
                proof {
                    assert(rest@ =~= answers@.push(answer));
                }
                rest
            } else {
                let mut all = place_by_rank(rest, answer);
                all.push(last);
                all
            }
        },
    }
}

impl<O> Execution<O> {
    /// A command that no rank has answered yet. Some ranks may already be known to have failed.
    pub fn begin(sequence: u64, failures: Vec<RankFailure>) -> (execution: Self)
        ensures
            execution@ == (Answers::<O> {
                sequence,
                outputs: Seq::empty(),
                failures: failure_views(failures@),
            }),
    {
        Execution { sequence, outputs: Vec::new(), failures }
    }

    /// Takes in an event. An event that does not answer the command ends the execution.
    pub fn take_event(&mut self, event: RankEvent<O>) -> (taken: Result<(), WorkerGroupError>)
        ensures
            match event {
                RankEvent::Executed { rank, sequence, result } if sequence
                    == old(self)@.sequence => {
                    &&& taken is Ok
                    &&& final(self)@.sequence == old(self)@.sequence
                    &&& match result {
                        Ok(output) => final(self)@.failures == old(self)@.failures
                            && final(self)@.outputs.len() == old(self)@.outputs.len() + 1
                            && final(self)@.outputs.drop_last() == old(self)@.outputs
                            && final(self)@.outputs.last()@ == (Answer { rank, output }),
                        Err(message) => final(self)@.outputs == old(self)@.outputs
                            && final(self)@.failures == old(self)@.failures.push(
                            Failure { rank, message: message@ },
                        ),
                    }
                },
                _ => final(self)@ == old(self)@ && taken is Err && taken->Err_0@
                    == (GroupFault::UnexpectedEvent {
                    stage: "execution"@,
                    detail: unexpected_detail(event, old(self)@.sequence),
                }),
            },
    {
        let answers_this = match &event {
            RankEvent::Executed { sequence, .. } => *sequence == self.sequence,
            _ => false,
        };
        if !answers_this {
            let head = cat4(
                event.name(),
                " from rank ",
                decimal_usize(event.rank().global_rank()).as_str(),
                " for sequence ",
            );
            let detail = cat4(
                head.as_str(),
                optional_number_text(event.sequence()).as_str(),
                ", expected ",
                decimal_u64(self.sequence).as_str(),
            );
            return Err(WorkerGroupError::UnexpectedEvent { stage: "execution", detail });
        }
        if let RankEvent::Executed { rank, sequence: _, result } = event {
            match result {
                Ok(output) => {
                    let ghost before = self.outputs@;
                    self.outputs.push(RankOutput::new(rank, output));
                    proof {
                        assert(self.outputs@.drop_last() =~= before);
                    }
                },
                Err(message) => {
                    let ghost before = failure_views(self.failures@);
                    self.failures.push(RankFailure { rank, message });
                    proof {
                        assert(failure_views(self.failures@) =~= before.push(
                            Failure { rank, message: message@ },
                        ));
                    }
                },
            }
        }
        Ok(())
    }

    /// What the ranks answered, in the order of the ranks, where none has failed.
    pub fn finish(self) -> (outputs: Result<Vec<RankOutput<O>>, WorkerGroupError>)
        ensures
            match outputs {
                Ok(list) => self@.failures.len() == 0 && list@ == by_rank(self@.outputs),
                Err(error) => self@.failures.len() > 0 && error@ == (GroupFault::RankFailures {
                    stage: "execution"@,
                    failures: self@.failures,
                }),
            },
    {
        if self.failures.len() > 0 {
            return Err(
                WorkerGroupError::RankFailures { stage: "execution", failures: self.failures },
            );
        }
        let ghost all = self.outputs@;
        let mut rest = self.outputs;
        let mut reversed: Vec<RankOutput<O>> = Vec::new();
        while rest.len() > 0
            invariant
                rest@.len() + reversed@.len() == all.len(),
                rest@ == all.take(rest@.len() as int),
                forall|i: int|
                    0 <= i < reversed@.len() ==> #[trigger] reversed@[i] == all[all.len() - 1 - i],
            decreases rest@.len(),
        {
            let ghost n = rest@.len() as int;
            if let Some(last) = rest.pop() {
                reversed.push(last);
            }
            proof {
                assert(rest@ =~= all.take(n - 1));
            }
        }
        let mut sorted: Vec<RankOutput<O>> = Vec::new();
        proof {
            assert(all.take(0) =~= Seq::empty());
        }
        while reversed.len() > 0
            invariant
                reversed@.len() <= all.len(),
                forall|i: int|
                    0 <= i < reversed@.len() ==> #[trigger] reversed@[i] == all[all.len() - 1 - i],
                sorted@ == by_rank(all.take(all.len() - reversed@.len())),
            decreases reversed@.len(),
        {
            let ghost taken = all.len() - reversed@.len();
            let ghost before = reversed@;
            if let Some(next) = reversed.pop() {
                proof {
                    assert(next == before[before.len() - 1]);
                    assert(next == all[taken]);
                    assert(all.take(taken + 1).drop_last() =~= all.take(taken));
                }
                sorted = place_by_rank(sorted, next);
            }
        }
        proof {
            assert(all.take(all.len() as int) =~= all);
        }
        Ok(sorted)
    }
}

/// The failure that an event during shutdown tells of.
pub open spec fn shutdown_failure<O>(event: RankEvent<O>, sequence: u64) -> Option<Failure> {
    match event {
        RankEvent::Stopped { rank, sequence: answered, result } if answered == sequence =>
            match result {
            Ok(_) => None,
            Err(message) => Some(Failure { rank, message: message@ }),
        },
        _ => Some(
            Failure {
                rank: event.from(),
                message: "unexpected "@ + event.named() + " event for sequence "@
                    + optional_number(event.answers()) + " during shutdown sequence "@ + decimal(
                    sequence as nat,
                ),
            },
        ),
    }
}

/// Takes in an event during shutdown.
pub fn shutdown_event<O>(failures: &mut Vec<RankFailure>, event: RankEvent<O>, sequence: u64)
    ensures
        failure_views(final(failures)@) == (match shutdown_failure(event, sequence) {
            Some(failure) => failure_views(old(failures)@).push(failure),
            None => failure_views(old(failures)@),
        }),
{
    let ghost before = failure_views(failures@);
    let answers_this = match &event {
        RankEvent::Stopped { sequence: answered, .. } => *answered == sequence,
        _ => false,
    };
    if !answers_this {
        let message = cat6(
            "unexpected ",
            event.name(),
            " event for sequence ",
            optional_number_text(event.sequence()).as_str(),
            " during shutdown sequence ",
            decimal_u64(sequence).as_str(),
        );
        failures.push(RankFailure { rank: event.rank(), message });
        proof {
            assert(failure_views(failures@) =~= before.push(
                Failure { rank: event.from(), message: message@ },
            ));
        }
        return ;
    }
    if let RankEvent::Stopped { rank, sequence: _, result } = event {
        if let Err(message) = result {
            failures.push(RankFailure { rank, message });
            proof {
                assert(failure_views(failures@) =~= before.push(
                    Failure { rank, message: message@ },
                ));
            }
        }
    }
}

/// Notes that the thread of a rank has panicked.
pub fn thread_panicked(failures: &mut Vec<RankFailure>, rank: TensorParallelRank)
    ensures
        failure_views(final(failures)@) == failure_views(old(failures)@).push(
            Failure { rank, message: "worker thread panicked"@ },
        ),
{
    let ghost before = failure_views(failures@);
    failures.push(RankFailure { rank, message: "worker thread panicked".to_owned() });
    proof {
        assert(failure_views(failures@) =~= before.push(
            Failure { rank, message: "worker thread panicked"@ },
        ));
    }
}

/// Whether shutdown succeeded: no rank has failed.
pub fn shutdown_outcome(failures: Vec<RankFailure>) -> (outcome: Result<(), WorkerGroupError>)
    ensures
        match outcome {
            Ok(_) => failures@.len() == 0,
            Err(error) => failures@.len() > 0 && error@ == (GroupFault::RankFailures {
                stage: "shutdown"@,
                failures: failure_views(failures@),
            }),
        },
{
    if failures.len() == 0 {
        Ok(())
    } else {
        Err(WorkerGroupError::RankFailures { stage: "shutdown", failures })
    }
}

} // verus!
