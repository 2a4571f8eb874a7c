//! What is checked before and after a model is run.
use vstd::prelude::*;
use vstd::string::*;

use crate::kv_cache::KvCacheModelLayout;
use crate::model_executor::{
    batch_of, inputs_of, sequence_of, with_request, ForwardMode, ModelWorkerBatch, ScheduleBatch,
    ScheduledRequest, StopRule, WorkerBatch,
};
use crate::text::{cat3, cat4, cat5, cat6, decimal, decimal_usize};
use crate::wire::seqs;

verus! {

/// Why a model could not be run, or its output not be used.
#[derive(Clone, Debug, PartialEq, Eq)]
pub enum ModelForwardError {
    EmptyVocabulary,
    RaggedLogits,
    Runtime(String),
    BatchSizeMismatch { request_count: usize, output_count: usize },
    TokenLogitCountMismatch { token_count: usize, logit_count: usize },
    MissingRequestTokenLogits { request_index: usize },
    InvalidProbabilityDistribution { request_index: usize },
}

/// What a [`ModelForwardError`] says.
pub enum ForwardFault {
    EmptyVocabulary,
    RaggedLogits,
    Runtime(Seq<char>),
    BatchSizeMismatch { request_count: usize, output_count: usize },
    TokenLogitCountMismatch { token_count: usize, logit_count: usize },
    MissingRequestTokenLogits { request_index: usize },
    InvalidProbabilityDistribution { request_index: usize },
}

impl View for ModelForwardError {
    type V = ForwardFault;

    open spec fn view(&self) -> ForwardFault {
        match *self {
            ModelForwardError::EmptyVocabulary => ForwardFault::EmptyVocabulary,
            ModelForwardError::RaggedLogits => ForwardFault::RaggedLogits,
            ModelForwardError::Runtime(message) => ForwardFault::Runtime(message@),
            ModelForwardError::BatchSizeMismatch { request_count, output_count } =>
                ForwardFault::BatchSizeMismatch { request_count, output_count },
            ModelForwardError::TokenLogitCountMismatch { token_count, logit_count } =>
                ForwardFault::TokenLogitCountMismatch { token_count, logit_count },
            ModelForwardError::MissingRequestTokenLogits { request_index } =>
                ForwardFault::MissingRequestTokenLogits { request_index },
            ModelForwardError::InvalidProbabilityDistribution { request_index } =>
                ForwardFault::InvalidProbabilityDistribution { request_index },
        }
    }
}

/// The numeral of a size.
pub open spec fn dec(n: usize) -> Seq<char> {
    decimal(n as nat)
}

/// The message that a fault is reported with.
pub open spec fn forward_fault_message(fault: ForwardFault) -> Seq<char> {
    match fault {
        ForwardFault::EmptyVocabulary => "model forward output has empty vocabulary"@,
        ForwardFault::RaggedLogits => "model forward output logits are ragged"@,
        ForwardFault::Runtime(message) => message,
        ForwardFault::BatchSizeMismatch { request_count, output_count } =>
            "model forward output count ("@ + dec(output_count) + ") must match request count ("@
                + dec(request_count) + ")"@,
        ForwardFault::TokenLogitCountMismatch { token_count, logit_count } =>
            "model forward token logit count ("@ + dec(logit_count)
                + ") must match input token count ("@ + dec(token_count) + ")"@,
        ForwardFault::MissingRequestTokenLogits { request_index } => "model forward request "@
            + dec(request_index) + " has no input token logits"@,
        ForwardFault::InvalidProbabilityDistribution { request_index } =>
            "model forward request "@ + dec(request_index)
                + " produced an invalid sampling distribution"@,
    }
}

impl ModelForwardError {
    /// The message that the error is reported with.
    pub fn to_string(&self) -> (message: String)
        ensures
            message@ == forward_fault_message(self@),
    {
        match self {
            ModelForwardError::EmptyVocabulary =>
                "model forward output has empty vocabulary".to_owned(),
            ModelForwardError::RaggedLogits => "model forward output logits are ragged".to_owned(),
            ModelForwardError::Runtime(message) => message.clone(),
            ModelForwardError::BatchSizeMismatch { request_count, output_count } => cat5(
                "model forward output count (",
                decimal_usize(*output_count).as_str(),
                ") must match request count (",
                decimal_usize(*request_count).as_str(),
                ")",
            ),
            ModelForwardError::TokenLogitCountMismatch { token_count, logit_count } => cat5(
                "model forward token logit count (",
                decimal_usize(*logit_count).as_str(),
                ") must match input token count (",
                decimal_usize(*token_count).as_str(),
                ")",
            ),
            ModelForwardError::MissingRequestTokenLogits { request_index } => cat3(
                "model forward request ",
                decimal_usize(*request_index).as_str(),
                " has no input token logits",
            ),
            ModelForwardError::InvalidProbabilityDistribution { request_index } => cat3(
                "model forward request ",
                decimal_usize(*request_index).as_str(),
                " produced an invalid sampling distribution",
            ),
        }
    }
}

/// What is said of a field that has not one entry for each request.
pub open spec fn length_message(name: Seq<char>, actual: nat, expected: nat) -> Seq<char> {
    "batch field "@ + name + " has length "@ + decimal(actual) + ", expected "@ + decimal(expected)
}

/// What is said of a request whose ranges are no ranges of the batch.
pub open spec fn range_message(index: nat) -> Seq<char> {
    "dense decoder request "@ + decimal(index) + " batch ranges exceed flattened storage"@
}

/// What is wrong with the ranges of a request.
pub open spec fn range_fault(batch: WorkerBatch, i: int) -> Option<Seq<char>> {
    if batch.request_offsets[i] + batch.input_token_counts[i] > usize::MAX {
        Some("batch input range overflowed"@)
    } else if batch.sequence_offsets[i] + batch.sequence_token_counts[i] > usize::MAX {
        Some("batch sequence range overflowed"@)
    } else if batch.request_offsets[i] + batch.input_token_counts[i] > batch.input_ids.len()
        || batch.sequence_offsets[i] + batch.sequence_token_counts[i]
        > batch.sequence_cache_pages.len() {
        Some(range_message(i as nat))
    } else {
        None
    }
}

/// What is wrong with the ranges of the first `n` requests.
pub open spec fn ranges_fault(batch: WorkerBatch, n: nat) -> Option<Seq<char>>
    decreases n,
{
    if n == 0 {
        None
    } else if ranges_fault(batch, (n - 1) as nat) is Some {
        ranges_fault(batch, (n - 1) as nat)
    } else {
        range_fault(batch, n - 1)
    }
}

/// What is wrong with a batch.
pub open spec fn batch_fault(batch: WorkerBatch) -> Option<Seq<char>> {
    let n = batch.request_ids.len();
    if batch.request_offsets.len() != n {
        Some(length_message("request_offsets"@, batch.request_offsets.len(), n))
    } else if batch.input_token_counts.len() != n {
        Some(length_message("input_token_counts"@, batch.input_token_counts.len(), n))
    } else if batch.sequence_offsets.len() != n {
        Some(length_message("sequence_offsets"@, batch.sequence_offsets.len(), n))
    } else if batch.sequence_token_counts.len() != n {
        Some(length_message("sequence_token_counts"@, batch.sequence_token_counts.len(), n))
    } else if batch.input_ids.len() != batch.positions.len() || batch.input_ids.len()
        != batch.out_cache_pages.len() {
        Some(
            "dense decoder input/position/output-slot lengths differ: "@ + decimal(
                batch.input_ids.len(),
            ) + "/"@ + decimal(batch.positions.len()) + "/"@ + decimal(batch.out_cache_pages.len()),
        )
    } else if batch.sequence_token_ids.len() != batch.sequence_cache_pages.len() {
        Some(
            "dense decoder sequence token/slot lengths differ: "@ + decimal(
                batch.sequence_token_ids.len(),
            ) + "/"@ + decimal(batch.sequence_cache_pages.len()),
        )
    } else {
        ranges_fault(batch, n)
    }
}

fn check_length(name: &str, actual: usize, expected: usize) -> (checked: Result<
    (),
    ModelForwardError,
>)
    ensures
        match checked {
            Ok(_) => actual == expected,
            Err(error) => actual != expected && error@ == ForwardFault::Runtime(
                length_message(name@, actual as nat, expected as nat),
            ),
        },
{
    if actual != expected {
        return Err(
            ModelForwardError::Runtime(
                cat6(
                    "batch field ",
                    name,
                    " has length ",
                    decimal_usize(actual).as_str(),
                    ", expected ",
                    decimal_usize(expected).as_str(),
                ),
            ),
        );
    }
    Ok(())
}

proof fn lemma_ranges_stay(batch: WorkerBatch, i: nat, n: nat)
    requires
        i <= n,
    ensures
        ranges_fault(batch, i) is Some ==> ranges_fault(batch, n) == ranges_fault(batch, i),
    decreases n - i,
{
    if i < n {
        lemma_ranges_stay(batch, i, (n - 1) as nat);
    }
}

/// Checks that the parts of a batch fit together.
pub fn validate_model_worker_batch(batch: &ModelWorkerBatch) -> (checked: Result<
    (),
    ModelForwardError,
>)
    ensures
        match checked {
            Ok(_) => batch_fault(batch@) is None,
            Err(error) => batch_fault(batch@) is Some && error@ == ForwardFault::Runtime(
                batch_fault(batch@)->0,
            ),
        },
{
    let request_count: usize = batch.request_ids().len();
    proof {
        assert(batch@.request_ids.len() == request_count);
    }
    check_length("request_offsets", batch.request_offsets().len(), request_count)?;
    check_length("input_token_counts", batch.input_token_counts().len(), request_count)?;
    check_length("sequence_offsets", batch.sequence_offsets().len(), request_count)?;
    check_length("sequence_token_counts", batch.sequence_token_counts().len(), request_count)?;
    let inputs: usize = batch.input_ids().len();
    let positions: usize = batch.positions().len();
    let outs: usize = batch.out_cache_pages().len();
    if inputs != positions || inputs != outs {
        return Err(
            ModelForwardError::Runtime(
                cat6(
                    "dense decoder input/position/output-slot lengths differ: ",
                    decimal_usize(inputs).as_str(),
                    "/",
                    decimal_usize(positions).as_str(),
                    "/",
                    decimal_usize(outs).as_str(),
                ),
            ),
        );
    }
    let tokens: usize = batch.sequence_token_ids().len();
    let pages: usize = batch.sequence_cache_pages().len();
    if tokens != pages {
        return Err(
            ModelForwardError::Runtime(
                cat4(
                    "dense decoder sequence token/slot lengths differ: ",
                    decimal_usize(tokens).as_str(),
                    "/",
                    decimal_usize(pages).as_str(),
                ),
            ),
        );
    }
    let mut i: usize = 0;
    while i < request_count
        invariant
            i <= request_count,
            request_count == batch@.request_ids.len(),
            request_count == batch@.request_offsets.len(),
            request_count == batch@.input_token_counts.len(),
            request_count == batch@.sequence_offsets.len(),
            request_count == batch@.sequence_token_counts.len(),
            inputs == batch@.input_ids.len(),
            inputs == batch@.positions.len(),
            inputs == batch@.out_cache_pages.len(),
            tokens == batch@.sequence_token_ids.len(),
            pages == batch@.sequence_cache_pages.len(),
            tokens == pages,
            ranges_fault(batch@, i as nat) is None,
        decreases request_count - i,
    {
        proof {
            lemma_ranges_stay(batch@, (i + 1) as nat, request_count as nat);
        }
        let input_end: usize = match batch.request_offsets()[i].checked_add(
            batch.input_token_counts()[i],
        ) {
            Some(end) => end,
            None => {
                return Err(
                    ModelForwardError::Runtime("batch input range overflowed".to_owned()),
                );
            },
        };
        let sequence_end: usize = match batch.sequence_offsets()[i].checked_add(
            batch.sequence_token_counts()[i],
        ) {
            Some(end) => end,
            None => {
                return Err(
                    ModelForwardError::Runtime("batch sequence range overflowed".to_owned()),
                );
            },
        };
        if input_end > inputs || sequence_end > pages {
            return Err(
                ModelForwardError::Runtime(
                    cat3(
                        "dense decoder request ",
                        decimal_usize(i).as_str(),
                        " batch ranges exceed flattened storage",
                    ),
                ),
            );
        }
        i = i + 1;
    }
    Ok(())
}

/// Whether a request has a page for each token that the model reads, and for each of its sequence.
pub open spec fn has_pages(mode: ForwardMode, request: ScheduledRequest) -> bool {
    &&& request.forward_cache_pages@.len() == inputs_of(mode, request).len()
    &&& request.sequence_cache_pages@.len() == sequence_of(mode, request).len()
}

/// The ranges of the requests follow each other.
pub open spec fn ranges_follow(batch: WorkerBatch) -> bool {
    let n = batch.request_ids.len() as int;
    &&& batch.request_offsets.len() == n
    &&& batch.input_token_counts.len() == n
    &&& batch.sequence_offsets.len() == n
    &&& batch.sequence_token_counts.len() == n
    &&& batch.positions.len() == batch.input_ids.len()
    &&& batch.out_cache_pages.len() == batch.input_ids.len()
    &&& batch.sequence_cache_pages.len() == batch.sequence_token_ids.len()
    &&& forall|i: int|
        0 <= i < n ==> #[trigger] batch.request_offsets[i] + batch.input_token_counts[i]
            <= batch.input_ids.len()
    &&& forall|i: int|
        0 <= i < n ==> #[trigger] batch.sequence_offsets[i] + batch.sequence_token_counts[i]
            <= batch.sequence_token_ids.len()
}

proof fn lemma_ranges_follow(mode: ForwardMode, requests: Seq<ScheduledRequest>)
    requires
        forall|i: int| 0 <= i < requests.len() ==> has_pages(mode, #[trigger] requests[i]),
        batch_of(mode, requests).input_ids.len() <= usize::MAX,
        batch_of(mode, requests).sequence_token_ids.len() <= usize::MAX,
    ensures
        ranges_follow(batch_of(mode, requests)),
        batch_of(mode, requests).forward_mode == mode,
    decreases requests.len(),
{
    if requests.len() > 0 {
        let front = requests.drop_last();
        let request = requests.last();
        assert(has_pages(mode, requests[requests.len() - 1]));
        assert forall|i: int| 0 <= i < front.len() implies has_pages(mode, #[trigger] front[i]) by {
            assert(front[i] == requests[i]);
        }
        lemma_mode(mode, front);
        let before = batch_of(mode, front);
        let after = batch_of(mode, requests);
        assert(after == with_request(before, request));
        lemma_ranges_follow(mode, front);
        assert forall|i: int| 0 <= i < after.request_ids.len() implies #[trigger] after.request_offsets[i]
            + after.input_token_counts[i] <= after.input_ids.len() by {
            if i < before.request_ids.len() {
                assert(after.request_offsets[i] == before.request_offsets[i]);
            }
        }
        assert forall|i: int| 0 <= i < after.request_ids.len() implies #[trigger] after.sequence_offsets[i]
            + after.sequence_token_counts[i] <= after.sequence_token_ids.len() by {
            if i < before.request_ids.len() {
                assert(after.sequence_offsets[i] == before.sequence_offsets[i]);
            }
        }
    }
}

proof fn lemma_mode(mode: ForwardMode, requests: Seq<ScheduledRequest>)
    ensures
        batch_of(mode, requests).forward_mode == mode,
    decreases requests.len(),
{
    if requests.len() > 0 {
        lemma_mode(mode, requests.drop_last());
    }
}

proof fn lemma_no_range_fault(batch: WorkerBatch, n: nat)
    requires
        ranges_follow(batch),
        n <= batch.request_ids.len(),
        batch.input_ids.len() <= usize::MAX,
        batch.sequence_token_ids.len() <= usize::MAX,
    ensures
        ranges_fault(batch, n) is None,
    decreases n,
{
    if n > 0 {
        lemma_no_range_fault(batch, (n - 1) as nat);
        assert(batch.request_offsets[n - 1] + batch.input_token_counts[n - 1]
            <= batch.input_ids.len());
        assert(batch.sequence_offsets[n - 1] + batch.sequence_token_counts[n - 1]
            <= batch.sequence_token_ids.len());
    }
}

/// A batch of requests that have their pages passes the check.
pub proof fn batches_with_pages_are_valid(mode: ForwardMode, requests: Seq<ScheduledRequest>)
    requires
        forall|i: int| 0 <= i < requests.len() ==> has_pages(mode, #[trigger] requests[i]),
        batch_of(mode, requests).input_ids.len() <= usize::MAX,
        batch_of(mode, requests).sequence_token_ids.len() <= usize::MAX,
    ensures
        batch_fault(batch_of(mode, requests)) is None,
{
    lemma_ranges_follow(mode, requests);
    lemma_no_range_fault(
        batch_of(mode, requests),
        batch_of(mode, requests).request_ids.len(),
    );
}

/// The tokens of a request stand in its range of the batch.
pub proof fn requests_stand_in_their_ranges(
    mode: ForwardMode,
    requests: Seq<ScheduledRequest>,
    i: int,
)
    requires
        0 <= i < requests.len(),
        batch_of(mode, requests).input_ids.len() <= usize::MAX,
    ensures
        ({
            let batch = batch_of(mode, requests);
            &&& batch.request_offsets.len() == requests.len()
            &&& batch.input_token_counts.len() == requests.len()
            &&& batch.request_offsets[i] + batch.input_token_counts[i] <= batch.input_ids.len()
            &&& batch.input_ids.subrange(
                batch.request_offsets[i] as int,
                batch.request_offsets[i] + batch.input_token_counts[i],
            ) == inputs_of(mode, requests[i])
        }),
    decreases requests.len(),
{
    let front = requests.drop_last();
    let before = batch_of(mode, front);
    let after = batch_of(mode, requests);
    lemma_mode(mode, front);
    lemma_lengths(mode, front);
    assert(after == with_request(before, requests.last()));
    if i < front.len() {
        requests_stand_in_their_ranges(mode, front, i);
        assert(after.input_ids.subrange(
            after.request_offsets[i] as int,
            after.request_offsets[i] + after.input_token_counts[i],
        ) =~= before.input_ids.subrange(
            before.request_offsets[i] as int,
            before.request_offsets[i] + before.input_token_counts[i],
        ));
    } else {
        assert(after.input_ids.subrange(
            after.request_offsets[i] as int,
            after.request_offsets[i] + after.input_token_counts[i],
        ) =~= inputs_of(mode, requests[i]));
    }
}

/// The tokens of a request's sequence stand in its range of the sequences of the batch.
pub proof fn sequences_stand_in_their_ranges(
    mode: ForwardMode,
    requests: Seq<ScheduledRequest>,
    i: int,
)
    requires
        0 <= i < requests.len(),
        batch_of(mode, requests).sequence_token_ids.len() <= usize::MAX,
    ensures
        ({
            let batch = batch_of(mode, requests);
            &&& batch.sequence_offsets.len() == requests.len()
            &&& batch.sequence_token_counts.len() == requests.len()
            &&& batch.sequence_offsets[i] + batch.sequence_token_counts[i]
                <= batch.sequence_token_ids.len()
            &&& batch.sequence_token_ids.subrange(
                batch.sequence_offsets[i] as int,
                batch.sequence_offsets[i] + batch.sequence_token_counts[i],
            ) == sequence_of(mode, requests[i])
        }),
    decreases requests.len(),
{
    let front = requests.drop_last();
    let before = batch_of(mode, front);
    let after = batch_of(mode, requests);
    lemma_mode(mode, front);
    lemma_lengths(mode, front);
    assert(after == with_request(before, requests.last()));
    if i < front.len() {
        sequences_stand_in_their_ranges(mode, front, i);
        assert(after.sequence_token_ids.subrange(
            after.sequence_offsets[i] as int,
            after.sequence_offsets[i] + after.sequence_token_counts[i],
        ) =~= before.sequence_token_ids.subrange(
            before.sequence_offsets[i] as int,
            before.sequence_offsets[i] + before.sequence_token_counts[i],
        ));
    } else {
        assert(after.sequence_token_ids.subrange(
            after.sequence_offsets[i] as int,
            after.sequence_offsets[i] + after.sequence_token_counts[i],
        ) =~= sequence_of(mode, requests[i]));
    }
}

/// The sum of the first `n` counts.
pub open spec fn sum_of(counts: Seq<usize>, n: nat) -> nat
    decreases n,
{
    if n == 0 || n > counts.len() {
        0
    } else {
        sum_of(counts, (n - 1) as nat) + counts[n - 1] as nat
    }
}

proof fn lemma_sum_of_more(counts: Seq<usize>, count: usize, n: nat)
    requires
        n <= counts.len(),
    ensures
        sum_of(counts.push(count), n) == sum_of(counts, n),
    decreases n,
{
    if n > 0 {
        lemma_sum_of_more(counts, count, (n - 1) as nat);
    }
}

/// A batch has an entry for every request in each of its lists by request. The offset of a request is
/// the sum of the counts of the requests before it, and all counts together are the tokens of the
/// batch, for the tokens that the model reads, each of which has a position, and for the tokens of the
/// sequences, whose lengths are their counts.
pub proof fn offsets_are_running_sums(mode: ForwardMode, requests: Seq<ScheduledRequest>)
    requires
        batch_of(mode, requests).input_ids.len() <= usize::MAX,
        batch_of(mode, requests).sequence_token_ids.len() <= usize::MAX,
    ensures
        ({
            let batch = batch_of(mode, requests);
            let n = requests.len();
            &&& batch.request_ids.len() == n
            &&& batch.request_offsets.len() == n
            &&& batch.input_token_counts.len() == n
            &&& batch.sequence_offsets.len() == n
            &&& batch.sequence_token_counts.len() == n
            &&& batch.cached_token_counts.len() == n
            &&& batch.prefix_cache_pages.len() == n
            &&& batch.meeting_places.len() == n
            &&& batch.data_parallel_ranks.len() == n
            &&& forall|i: int|
                0 <= i < n ==> #[trigger] batch.request_offsets[i] == sum_of(
                    batch.input_token_counts,
                    i as nat,
                )
            &&& sum_of(batch.input_token_counts, n) == batch.input_ids.len()
            &&& batch.positions.len() == batch.input_ids.len()
            &&& forall|i: int|
                0 <= i < n ==> #[trigger] batch.sequence_offsets[i] == sum_of(
                    batch.sequence_token_counts,
                    i as nat,
                )
            &&& sum_of(batch.sequence_token_counts, n) == batch.sequence_token_ids.len()
            &&& batch.sequence_lengths == batch.sequence_token_counts
        }),
    decreases requests.len(),
{
    if requests.len() > 0 {
        let front = requests.drop_last();
        let last = requests.last();
        let before = batch_of(mode, front);
        let after = batch_of(mode, requests);
        lemma_mode(mode, front);
        assert(after == with_request(before, last));
        offsets_are_running_sums(mode, front);
        let inputs = inputs_of(mode, last).len() as usize;
        let tokens = sequence_of(mode, last).len() as usize;
        lemma_sum_of_more(before.input_token_counts, inputs, front.len());
        lemma_sum_of_more(before.sequence_token_counts, tokens, front.len());
        assert forall|i: int| 0 <= i < requests.len() implies #[trigger] after.request_offsets[i]
            == sum_of(after.input_token_counts, i as nat) by {
            lemma_sum_of_more(before.input_token_counts, inputs, i as nat);
            if i < front.len() {
                assert(after.request_offsets[i] == before.request_offsets[i]);
            }
        }
        assert forall|i: int| 0 <= i < requests.len() implies #[trigger] after.sequence_offsets[i]
            == sum_of(after.sequence_token_counts, i as nat) by {
            lemma_sum_of_more(before.sequence_token_counts, tokens, i as nat);
            if i < front.len() {
                assert(after.sequence_offsets[i] == before.sequence_offsets[i]);
            }
        }
    }
}

proof fn lemma_lengths(mode: ForwardMode, requests: Seq<ScheduledRequest>)
    ensures
        batch_of(mode, requests).request_offsets.len() == requests.len(),
        batch_of(mode, requests).input_token_counts.len() == requests.len(),
        batch_of(mode, requests).sequence_offsets.len() == requests.len(),
        batch_of(mode, requests).sequence_token_counts.len() == requests.len(),
    decreases requests.len(),
{
    if requests.len() > 0 {
        lemma_lengths(mode, requests.drop_last());
    }
}

/// The scores that a model gives: a row for each request, a score for each token.
#[derive(Clone, Debug, PartialEq)]
pub struct ModelForwardOutput<T> {
    logits: Vec<Vec<T>>,
}

impl<T> View for ModelForwardOutput<T> {
    type V = Seq<Seq<T>>;

    closed spec fn view(&self) -> Seq<Seq<T>> {
        seqs(self.logits@)
    }
}

/// What is wrong with rows of scores: they must have the same, non-zero length.
pub open spec fn logits_fault<T>(logits: Seq<Seq<T>>) -> Option<ForwardFault> {
    if logits.len() == 0 {
        None
    } else if logits[0].len() == 0 {
        Some(ForwardFault::EmptyVocabulary)
    } else if exists|i: int| 0 <= i < logits.len() && (#[trigger] logits[i]).len() != logits[0].len() {
        Some(ForwardFault::RaggedLogits)
    } else {
        None
    }
}

/// Checks that rows of scores have the same, non-zero length.
pub fn validate_logits<T>(logits: &Vec<Vec<T>>) -> (checked: Result<(), ModelForwardError>)
    ensures
        match checked {
            Ok(_) => logits_fault(seqs(logits@)) is None,
            Err(error) => logits_fault(seqs(logits@)) == Some(error@),
        },
{
    let ghost rows = seqs(logits@);
    if logits.len() == 0 {
        return Ok(());
    }
    let vocab_size: usize = logits[0].len();
    proof {
        assert(rows[0] == logits@[0]@);
    }
    if vocab_size == 0 {
        return Err(ModelForwardError::EmptyVocabulary);
    }
    let mut i: usize = 0;
    while i < logits.len()
        invariant
            i <= logits@.len(),
            logits@.len() > 0,
            rows == seqs(logits@),
            vocab_size == rows[0].len(),
            vocab_size > 0,
            forall|j: int| 0 <= j < i ==> (#[trigger] rows[j]).len() == vocab_size,
        decreases logits@.len() - i,
    {
        proof {
            assert(rows[i as int] == logits@[i as int]@);
        }
        if logits[i].len() != vocab_size {
            return Err(ModelForwardError::RaggedLogits);
        }
        i = i + 1;
    }
    Ok(())
}

/// What keeps the scores of single tokens from being those of requests.
pub open spec fn token_logits_fault<T>(batch: WorkerBatch, logits: Seq<Seq<T>>) -> Option<
    ForwardFault,
> {
    if logits_fault(logits) is Some {
        logits_fault(logits)
    } else if logits.len() != batch.input_ids.len() {
        Some(
            ForwardFault::TokenLogitCountMismatch {
                token_count: batch.input_ids.len() as usize,
                logit_count: logits.len() as usize,
            },
        )
    } else {
        first_empty_request(batch.input_token_counts)
    }
}

/// The first request of which the model reads no token.
pub open spec fn first_empty_request(counts: Seq<usize>) -> Option<ForwardFault>
    decreases counts.len(),
{
    if counts.len() == 0 {
        None
    } else if first_empty_request(counts.drop_last()) is Some {
        first_empty_request(counts.drop_last())
    } else if counts.last() == 0 {
        Some(
            ForwardFault::MissingRequestTokenLogits { request_index: (counts.len() - 1) as usize },
        )
    } else {
        None
    }
}

proof fn lemma_empty_stays(counts: Seq<usize>, i: int)
    requires
        0 <= i <= counts.len(),
    ensures
        first_empty_request(counts.take(i)) is Some ==> first_empty_request(counts)
            == first_empty_request(counts.take(i)),
    decreases counts.len() - i,
{
    if i < counts.len() {
        assert(counts.take(i + 1).drop_last() =~= counts.take(i));
        lemma_empty_stays(counts, i + 1);
    } else {
        assert(counts.take(i) =~= counts);
    }
}

fn copy_row<T: Copy>(row: &Vec<T>) -> (copy: Vec<T>)
    ensures
        copy@ == row@,
{
    let mut copy: Vec<T> = Vec::new();
    let mut i: usize = 0;
    while i < row.len()
        invariant
            i <= row@.len(),
            copy@ == row@.take(i as int),
        decreases row@.len() - i,
    {
        copy.push(row[i]);
        i = i + 1;
        proof {
            assert(row@.take(i as int) =~= row@.take(i - 1).push(row@[i - 1]));
        }
    }
    proof {
        assert(row@.take(i as int) =~= row@);
    }
    copy
}

impl<T: Copy> ModelForwardOutput<T> {
    /// The scores of requests.
    pub fn new(logits: Vec<Vec<T>>) -> (output: Result<Self, ModelForwardError>)
        ensures
            match output {
                Ok(made) => logits_fault(seqs(logits@)) is None && made@ == seqs(logits@),
                Err(error) => logits_fault(seqs(logits@)) == Some(error@),
            },
    {
        validate_logits(&logits)?;
        Ok(ModelForwardOutput { logits })
    }

    /// The scores of requests, from those of all tokens: the last token of a request counts.
    pub fn from_token_logits(batch: &ModelWorkerBatch, token_logits: Vec<Vec<T>>) -> (output:
        Result<Self, ModelForwardError>)
        requires
            batch@.request_offsets.len() == batch@.input_token_counts.len(),
            forall|i: int|
                0 <= i < batch@.request_offsets.len() ==> #[trigger] batch@.request_offsets[i]
                    + batch@.input_token_counts[i] <= batch@.input_ids.len(),
        ensures
            match output {
                Ok(made) => token_logits_fault(batch@, seqs(token_logits@)) is None && made@
                    == Seq::new(
                    batch@.request_offsets.len(),
                    |i: int|
                        token_logits@[batch@.request_offsets[i] + batch@.input_token_counts[i]
                            - 1]@,
                ),
                Err(error) => token_logits_fault(batch@, seqs(token_logits@)) == Some(error@),
            },
    {
        validate_logits(&token_logits)?;
        if token_logits.len() != batch.input_ids().len() {
            return Err(
                ModelForwardError::TokenLogitCountMismatch {
                    token_count: batch.input_ids().len(),
                    logit_count: token_logits.len(),
                },
            );
        }
        let offsets = batch.request_offsets();
        let counts = batch.input_token_counts();
        let ghost wanted = Seq::new(
            batch@.request_offsets.len(),
            |i: int|
                token_logits@[batch@.request_offsets[i] + batch@.input_token_counts[i] - 1]@,
        );
        let mut logits: Vec<Vec<T>> = Vec::new();
        let mut i: usize = 0;
        let total: usize = token_logits.len();
        while i < offsets.len()
            invariant
                i <= offsets@.len(),
                offsets@ == batch@.request_offsets,
                counts@ == batch@.input_token_counts,
                offsets@.len() == counts@.len(),
                total == token_logits@.len(),
                total == batch@.input_ids.len(),
                forall|j: int|
                    0 <= j < batch@.request_offsets.len() ==> #[trigger] batch@.request_offsets[j]
                        + batch@.input_token_counts[j] <= total,
                logits_fault(seqs(token_logits@)) is None,
                first_empty_request(counts@.take(i as int)) is None,
                wanted == Seq::new(
                    batch@.request_offsets.len(),
                    |i: int|
                        token_logits@[batch@.request_offsets[i] + batch@.input_token_counts[i]
                            - 1]@,
                ),
                logits@.len() == i,
                forall|j: int| 0 <= j < i ==> (#[trigger] logits@[j])@ == wanted[j],
            decreases offsets@.len() - i,
        {
            proof {
                assert(counts@.take(i + 1).drop_last() =~= counts@.take(i as int));
                lemma_empty_stays(counts@, i + 1);
                assert(batch@.request_offsets[i as int] + batch@.input_token_counts[i as int]
                    <= total);
            }
            if counts[i] == 0 {
                return Err(ModelForwardError::MissingRequestTokenLogits { request_index: i });
            }
            let end: usize = offsets[i] + counts[i];
            logits.push(copy_row(&token_logits[end - 1]));
            i = i + 1;
        }
        let output = ModelForwardOutput { logits };
        proof {
            assert(counts@.take(i as int) =~= counts@);
            assert(output@ =~= wanted);
        }
        Ok(output)
    }

    /// The rows of scores.
    pub fn logits(&self) -> (logits: &[Vec<T>])
        ensures
            seqs(logits@) == self@,
    {
        self.logits.as_slice()
    }

    /// The rows of scores.
    pub fn into_logits(self) -> (logits: Vec<Vec<T>>)
        ensures
            seqs(logits@) == self@,
    {
        self.logits
    }

    /// Checks that there is a row for each request.
    pub fn check_request_count(&self, request_count: usize) -> (checked: Result<
        (),
        ModelForwardError,
    >)
        ensures
            match checked {
                Ok(_) => self@.len() == request_count,
                Err(error) => self@.len() != request_count && error@
                    == (ForwardFault::BatchSizeMismatch {
                    request_count,
                    output_count: self@.len() as usize,
                }),
            },
    {
        let output_count: usize = self.logits.len();
        proof {
            assert(self@.len() == output_count);
        }
        if output_count != request_count {
            return Err(ModelForwardError::BatchSizeMismatch { request_count, output_count });
        }
        Ok(())
    }
}

/// A random source that the system seeds.
#[derive(Clone, Copy, Debug, Default)]
pub struct SystemRandomSource;

/// Chooses tokens by their scores.
#[derive(Clone, Debug)]
pub struct LogitSampler<R> {
    random: R,
}

impl<R> LogitSampler<R> {
    /// The random source.
    pub closed spec fn source(self) -> R {
        self.random
    }

    /// A sampler with a random source.
    pub fn new(random: R) -> (sampler: Self)
        ensures
            sampler.source() == random,
    {
        LogitSampler { random }
    }

    /// The random source.
    pub fn random(&mut self) -> (random: &mut R)
        ensures
            *random == old(self).source(),
            final(self).source() == *final(random),
    {
        &mut self.random
    }
}

impl Default for LogitSampler<SystemRandomSource> {
    /// A sampler that the system seeds.
    fn default() -> (sampler: Self)
        ensures
            sampler.source() == SystemRandomSource,
    {
        LogitSampler::new(SystemRandomSource)
    }
}

/// The place of a binary32 value in the total order of such values, from its bits.
pub open spec fn total_order(bits: u32) -> int {
    if bits < 0x8000_0000 {
        bits as int
    } else {
        -1 - (bits - 0x8000_0000)
    }
}

/// The place of a binary32 value in the total order of such values, from its bits.
pub fn total_order_key(bits: u32) -> (key: i32)
    ensures
        key == total_order(bits),
{
    if bits < 0x8000_0000 {
        bits as i32
    } else {
        (-1 - (bits as i64 - 0x8000_0000)) as i32
    }
}

/// Whether a token is the last of those with the highest score.
pub open spec fn is_last_best(keys: Seq<i32>, token: int) -> bool {
    &&& 0 <= token < keys.len()
    &&& forall|i: int| 0 <= i < keys.len() ==> #[trigger] keys[i] <= keys[token]
    &&& forall|i: int| token < i < keys.len() ==> #[trigger] keys[i] < keys[token]
}

/// The last of the tokens with the highest score.
pub fn argmax_token(keys: &Vec<i32>) -> (token: Result<u32, ModelForwardError>)
    requires
        keys@.len() <= u32::MAX,
    ensures
        match token {
            Ok(best) => is_last_best(keys@, best as int),
            Err(error) => keys@.len() == 0 && error@ == ForwardFault::EmptyVocabulary,
        },
{
    if keys.len() == 0 {
        return Err(ModelForwardError::EmptyVocabulary);
    }
    let mut best: usize = 0;
    let mut i: usize = 1;
    while i < keys.len()
        invariant
            best < i <= keys@.len(),
            keys@.len() <= u32::MAX,
            forall|j: int| 0 <= j < i ==> #[trigger] keys@[j] <= keys@[best as int],
            forall|j: int| best < j < i ==> #[trigger] keys@[j] < keys@[best as int],
        decreases keys@.len() - i,
    {
        if keys[i] >= keys[best] {
            best = i;
        }
        i = i + 1;
    }
    Ok(best as u32)
}

/// A token that was made, and whether it ends its request.
#[derive(Clone, Copy, Debug, PartialEq, Eq, Structural)]
pub struct GeneratedToken {
    pub token_id: u32,
    pub finished: bool,
}

/// Whether a token ends a request.
pub open spec fn ends(rule: StopRule, token_id: u32) -> bool {
    !rule.ignore_eos && rule.stop_token_ids@.contains(token_id)
}

fn is_stop_token(list: &Vec<u32>, token_id: u32) -> (is: bool)
    ensures
        is == list@.contains(token_id),
{
    let mut i: usize = 0;
    while i < list.len()
        invariant
            i <= list@.len(),
            forall|j: int| 0 <= j < i ==> #[trigger] list@[j] != token_id,
        decreases list@.len() - i,
    {
        if list[i] == token_id {
            proof {
                assert(list@[i as int] == token_id);
            }
            return true;
        }
        i = i + 1;
    }
    false
}

/// The tokens of a batch, one for each request, and which of them end their requests.
pub fn finish_tokens(batch: &ScheduleBatch, token_ids: &Vec<u32>) -> (tokens: Result<
    Vec<GeneratedToken>,
    ModelForwardError,
>)
    ensures
        match tokens {
            Ok(list) => token_ids@.len() == batch.requests@.len() && list@ == Seq::new(
                token_ids@.len(),
                |i: int|
                    GeneratedToken {
                        token_id: token_ids@[i],
                        finished: ends(batch.requests@[i].stop_rule, token_ids@[i]),
                    },
            ),
            Err(error) => token_ids@.len() != batch.requests@.len() && error@
                == (ForwardFault::BatchSizeMismatch {
                request_count: batch.requests@.len() as usize,
                output_count: token_ids@.len() as usize,
            }),
        },
{
    if token_ids.len() != batch.requests.len() {
        return Err(
            ModelForwardError::BatchSizeMismatch {
                request_count: batch.requests.len(),
                output_count: token_ids.len(),
            },
        );
    }
    let ghost wanted = Seq::new(
        token_ids@.len(),
        |i: int|
            GeneratedToken {
                token_id: token_ids@[i],
                finished: ends(batch.requests@[i].stop_rule, token_ids@[i]),
            },
    );
    let mut list: Vec<GeneratedToken> = Vec::new();
    let mut i: usize = 0;
    while i < token_ids.len()
        invariant
            i <= token_ids@.len(),
            token_ids@.len() == batch.requests@.len(),
            wanted == Seq::new(
                token_ids@.len(),
                |i: int|
                    GeneratedToken {
                        token_id: token_ids@[i],
                        finished: ends(batch.requests@[i].stop_rule, token_ids@[i]),
                    },
            ),
            list@ == wanted.take(i as int),
        decreases token_ids@.len() - i,
    {
        let token_id: u32 = token_ids[i];
        let rule = &batch.requests[i].stop_rule;
        let finished = !rule.ignore_eos && is_stop_token(&rule.stop_token_ids, token_id);
        list.push(GeneratedToken { token_id, finished });
        i = i + 1;
        proof {
            assert(wanted.take(i as int) =~= wanted.take(i - 1).push(wanted[i - 1]));
        }
    }
    proof {
        assert(wanted.take(i as int) =~= wanted);
    }
    Ok(list)
}

/// A part of the memory of a cache that can be transferred.
#[derive(Clone, Copy, Debug)]
pub struct TransferableRegion {
    pub byte_len: usize,
    pub page_size_bytes: usize,
}

/// The memory of a cache that can be transferred.
#[derive(Clone, Debug)]
pub struct TransferableKvCacheMemory {
    pub page_size_bytes: usize,
    pub regions: Vec<TransferableRegion>,
}

impl TransferableKvCacheMemory {
    /// Pages have a size.
    pub open spec fn wf(self) -> bool {
        &&& self.page_size_bytes > 0
        &&& forall|i: int|
            0 <= i < self.regions@.len() ==> (#[trigger] self.regions@[i]).page_size_bytes > 0
    }
}

/// The bytes of the first `n` parts.
pub open spec fn region_bytes(regions: Seq<TransferableRegion>, n: nat) -> nat
    decreases n,
{
    if n == 0 || n > regions.len() {
        0
    } else {
        region_bytes(regions, (n - 1) as nat) + regions[n - 1].byte_len as nat
    }
}

/// The pages of a part.
pub open spec fn region_pages(region: TransferableRegion) -> nat {
    (region.byte_len as nat) / (region.page_size_bytes as nat)
}

/// What keeps the memory of a cache from holding `slot_capacity` slots in pages of `page_size`.
pub open spec fn reserve_fault(
    declares_layout: bool,
    memory: Option<TransferableKvCacheMemory>,
    slot_capacity: usize,
    page_size: usize,
) -> Option<Seq<char>> {
    if !declares_layout {
        Some("model execution definition does not declare KV cache geometry"@)
    } else {
        match memory {
            None => Some(
                "runtime backend did not allocate transferable KV memory for "@ + dec(
                    slot_capacity,
                ) + " slots with page size "@ + dec(page_size),
            ),
            Some(found) => {
                let n = found.regions@.len();
                let total = region_bytes(found.regions@, n);
                let page_bytes = found.page_size_bytes as nat;
                if page_size == 0 || slot_capacity == 0 || slot_capacity % page_size != 0 {
                    Some(
                        "scheduler KV geometry requires non-zero page-aligned capacity, found "@
                            + dec(slot_capacity) + " slots with page size "@ + dec(page_size),
                    )
                } else if total > usize::MAX {
                    Some("transferable KV memory byte length overflowed"@)
                } else if total % page_bytes != 0 {
                    Some(
                        "transferable KV memory length "@ + decimal(total)
                            + " is not divisible by logical page size "@ + decimal(page_bytes),
                    )
                } else if n == 0 {
                    Some("transferable KV memory has no regions"@)
                } else if exists|i: int|
                    0 <= i < n && region_pages(#[trigger] found.regions@[i]) != region_pages(
                        found.regions@[0],
                    ) {
                    Some(
                        "transferable KV memory regions do not contain the same logical page count"@,
                    )
                } else if total / page_bytes != (slot_capacity as nat) / (page_size as nat) {
                    Some(
                        "runtime KV allocation has "@ + decimal(total / page_bytes)
                            + " pages but scheduler requires "@ + decimal(
                            (slot_capacity as nat) / (page_size as nat),
                        ) + " pages for "@ + dec(slot_capacity) + " slots with page size "@ + dec(
                            page_size,
                        ),
                    )
                } else {
                    None
                }
            },
        }
    }
}

proof fn lemma_region_bytes(regions: Seq<TransferableRegion>, i: nat, n: nat)
    requires
        i <= n <= regions.len(),
    ensures
        region_bytes(regions, i) <= region_bytes(regions, n),
    decreases n - i,
{
    if i < n {
        lemma_region_bytes(regions, i, (n - 1) as nat);
    }
}

/// A model, what chooses its tokens, and how its cache is laid out.
pub struct ModelRunner<M, S> {
    model: M,
    sampler: S,
    kv_cache_layout: Option<KvCacheModelLayout>,
}

/// What a [`ModelRunner`] holds.
pub struct Runner<M, S> {
    pub model: M,
    pub sampler: S,
    pub kv_cache_layout: Option<KvCacheModelLayout>,
}

impl<M, S> View for ModelRunner<M, S> {
    type V = Runner<M, S>;

    closed spec fn view(&self) -> Runner<M, S> {
        Runner {
            model: self.model,
            sampler: self.sampler,
            kv_cache_layout: self.kv_cache_layout,
        }
    }
}

impl<M> ModelRunner<M, LogitSampler<SystemRandomSource>> {
    /// A runner whose tokens are chosen at random.
    pub fn new(model: M) -> (runner: Self)
        ensures
            runner@.model == model,
            runner@.sampler.source() == SystemRandomSource,
            runner@.kv_cache_layout is None,
    {
        Self::with_sampler(model, LogitSampler::new(SystemRandomSource))
    }

    /// A runner with a cache, whose tokens are chosen at random.
    pub fn new_with_kv_cache_layout(model: M, kv_cache_layout: Option<KvCacheModelLayout>) -> (
        runner: Self)
        ensures
            runner@.model == model,
            runner@.sampler.source() == SystemRandomSource,
            runner@.kv_cache_layout == kv_cache_layout,
    {
        Self::with_kv_cache_layout(model, LogitSampler::new(SystemRandomSource), kv_cache_layout)
    }
}

impl<M, S> ModelRunner<M, S> {
    /// A runner with a sampler.
    pub fn with_sampler(model: M, sampler: S) -> (runner: Self)
        ensures
            runner@ == (Runner { model, sampler, kv_cache_layout: None }),
    {
        ModelRunner { model, sampler, kv_cache_layout: None }
    }

    /// A runner with a sampler and a cache.
    pub fn with_kv_cache_layout(
        model: M,
        sampler: S,
        kv_cache_layout: Option<KvCacheModelLayout>,
    ) -> (runner: Self)
        ensures
            runner@ == (Runner { model, sampler, kv_cache_layout }),
    {
        ModelRunner { model, sampler, kv_cache_layout }
    }

    /// The model.
    pub fn model(&self) -> (model: &M)
        ensures
            *model == self@.model,
    {
        &self.model
    }

    /// The model.
    pub fn model_mut(&mut self) -> (model: &mut M)
        ensures
            *model == old(self)@.model,
            final(self)@ == (Runner { model: *final(model), ..old(self)@ }),
    {
        &mut self.model
    }

    /// What chooses the tokens.
    pub fn sampler_mut(&mut self) -> (sampler: &mut S)
        ensures
            *sampler == old(self)@.sampler,
            final(self)@ == (Runner { sampler: *final(sampler), ..old(self)@ }),
    {
        &mut self.sampler
    }

    /// How the cache is laid out.
    pub fn kv_cache_layout(&self) -> (layout: Option<KvCacheModelLayout>)
        ensures
            layout == self@.kv_cache_layout,
    {
        self.kv_cache_layout
    }

    /// Checks that the memory that the model has for its cache holds `slot_capacity` slots in
    /// pages of `page_size`.
    pub fn reserve_transferable_kv_cache_slots(
        &self,
        memory: Option<&TransferableKvCacheMemory>,
        slot_capacity: usize,
        page_size: usize,
    ) -> (reserved: Result<(), String>)
        requires
            memory matches Some(found) ==> found.wf(),
        ensures
            ({
                let found = match memory {
                    Some(held) => Some(*held),
                    None => None,
                };
                let fault = reserve_fault(
                    self@.kv_cache_layout is Some,
                    found,
                    slot_capacity,
                    page_size,
                );
                match reserved {
                    Ok(_) => fault is None,
                    Err(message) => fault == Some(message@),
                }
            }),
    {
        if self.kv_cache_layout.is_none() {
            return Err(
                "model execution definition does not declare KV cache geometry".to_owned(),
            );
        }
        let held = match memory {
            Some(found) => found,
            None => {
                return Err(
                    cat4(
                        "runtime backend did not allocate transferable KV memory for ",
                        decimal_usize(slot_capacity).as_str(),
                        " slots with page size ",
                        decimal_usize(page_size).as_str(),
                    ),
                );
            },
        };
        if page_size == 0 || slot_capacity == 0 || slot_capacity % page_size != 0 {
            return Err(
                cat4(
                    "scheduler KV geometry requires non-zero page-aligned capacity, found ",
                    decimal_usize(slot_capacity).as_str(),
                    " slots with page size ",
                    decimal_usize(page_size).as_str(),
                ),
            );
        }
        let ghost regions = held.regions@;
        let count: usize = held.regions.len();
        let mut total: usize = 0;
        let mut i: usize = 0;
        while i < count
            invariant
                i <= count,
                count == regions.len(),
                regions == held.regions@,
                memory == Some(held),
                self.kv_cache_layout is Some,
                page_size > 0,
                slot_capacity > 0,
                slot_capacity % page_size == 0,
                total == region_bytes(regions, i as nat),
            decreases count - i,
        {
            proof {
                lemma_region_bytes(regions, (i + 1) as nat, count as nat);
            }
            total =
            match total.checked_add(held.regions[i].byte_len) {
                Some(sum) => sum,
                None => {
                    return Err("transferable KV memory byte length overflowed".to_owned());
                },
            };
            i = i + 1;
        }
        if total % held.page_size_bytes != 0 {
            return Err(
                cat4(
                    "transferable KV memory length ",
                    decimal_usize(total).as_str(),
                    " is not divisible by logical page size ",
                    decimal_usize(held.page_size_bytes).as_str(),
                ),
            );
        }
        if count == 0 {
            return Err("transferable KV memory has no regions".to_owned());
        }
        proof {
            assert(regions[0].page_size_bytes > 0);
        }
        let first: usize = held.regions[0].byte_len / held.regions[0].page_size_bytes;
        let mut i: usize = 0;
        while i < count
            invariant
                i <= count,
                count > 0,
                count == regions.len(),
                regions == held.regions@,
                held.wf(),
                memory == Some(held),
                self.kv_cache_layout is Some,
                page_size > 0,
                slot_capacity > 0,
                slot_capacity % page_size == 0,
                total == region_bytes(regions, count as nat),
                total % held.page_size_bytes == 0,
                first == region_pages(regions[0]),
                forall|j: int| 0 <= j < i ==> region_pages(#[trigger] regions[j]) == first,
            decreases count - i,
        {
            proof {
                assert(regions[i as int].page_size_bytes > 0);
            }
            let pages: usize = held.regions[i].byte_len / held.regions[i].page_size_bytes;
            if pages != first {
                proof {
                    assert(region_pages(regions[i as int]) != region_pages(regions[0]));
                }
                return Err(
                    "transferable KV memory regions do not contain the same logical page count".to_owned(),
                );
            }
            i = i + 1;
        }
        let allocated: usize = total / held.page_size_bytes;
        let expected: usize = slot_capacity / page_size;
        if allocated != expected {
            let head = cat4(
                "runtime KV allocation has ",
                decimal_usize(allocated).as_str(),
                " pages but scheduler requires ",
                decimal_usize(expected).as_str(),
            );
            return Err(
                cat5(
                    head.as_str(),
                    " pages for ",
                    decimal_usize(slot_capacity).as_str(),
                    " slots with page size ",
                    decimal_usize(page_size).as_str(),
                ),
            );
        }
        Ok(())
    }
}

} // verus!
