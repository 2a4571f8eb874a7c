//! What the results of a forward step promise of the requests that they answer.
use vstd::prelude::*;

use crate::bootstrap_publisher::DisaggregatedParams;
use crate::model_executor::{
    batch_of, inputs_of, positions_of, CachePageId, ForwardMode, ModelWorkerBatch, ScheduleBatch,
    ScheduledRequest,
};
use crate::model_forward::{
    argmax_token, finish_tokens, total_order_key, GeneratedToken, ModelForwardError,
    ModelForwardOutput,
};
use crate::sampling::{
    bounded_unit, candidates, has_penalties, is_greedy, is_less, keep_candidates, occurrences,
    pick_token, token_counts, SamplingFractions,
};
use crate::types::RequestId;

verus! {

/// A request that ignores the end of its sequence is never finished by a token. Any other request is
/// finished by exactly the tokens that it lists as stop tokens. Every request keeps the token chosen
/// for it.
pub proof fn stop_tokens_end_requests(
    batch: ScheduleBatch,
    token_ids: Vec<u32>,
    tokens: Result<Vec<GeneratedToken>, ModelForwardError>,
    i: int,
)
    requires
        call_ensures(finish_tokens, (&batch, &token_ids), tokens),
        0 <= i < batch.requests@.len(),
    ensures
        tokens is Ok <==> token_ids@.len() == batch.requests@.len(),
        tokens matches Ok(list) ==> {
            let rule = batch.requests@[i].stop_rule;
            &&& list@.len() == batch.requests@.len()
            &&& list@[i].token_id == token_ids@[i]
            &&& rule.ignore_eos ==> !list@[i].finished
            &&& !rule.ignore_eos ==> (list@[i].finished <==> exists|j: int|
                0 <= j < rule.stop_token_ids@.len() && #[trigger] rule.stop_token_ids@[j]
                    == token_ids@[i])
        },
{
}

/// The positions of a request stand in its range of the batch.
proof fn lemma_positions(mode: ForwardMode, requests: Seq<ScheduledRequest>, i: int)
    requires
        0 <= i < requests.len(),
        batch_of(mode, requests).input_ids.len() <= usize::MAX,
    ensures
        ({
            let batch = batch_of(mode, requests);
            let from = batch.request_offsets[i] as int;
            let n = batch.input_token_counts[i] as int;
            &&& batch.positions.len() == batch.input_ids.len()
            &&& batch.request_offsets.len() == requests.len()
            &&& batch.input_token_counts.len() == requests.len()
            &&& batch.request_ids.len() == requests.len()
            &&& batch.cached_token_counts.len() == requests.len()
            &&& batch.prefix_cache_pages.len() == requests.len()
            &&& batch.data_parallel_ranks.len() == requests.len()
            &&& batch.sequence_lengths.len() == requests.len()
            &&& n == inputs_of(mode, requests[i]).len()
            &&& 0 <= from <= from + n <= batch.positions.len()
            &&& forall|k: int|
                0 <= k < n ==> #[trigger] batch.positions[from + k] == positions_of(
                    mode,
                    requests[i],
                )[k]
            &&& forall|k: int|
                0 <= k < n ==> #[trigger] batch.input_ids[from + k] == inputs_of(
                    mode,
                    requests[i],
                )[k]
            &&& batch.request_ids[i] == requests[i].request_id@
            &&& batch.cached_token_counts[i] == requests[i].forward_prefix_token_count
            &&& batch.prefix_cache_pages[i] == requests[i].prefix_cache_pages@
            &&& batch.data_parallel_ranks[i] == requests[i].data_parallel_rank
            &&& batch.forward_mode == mode
        }),
    decreases requests.len(),
{
    let front = requests.drop_last();
    let before = batch_of(mode, front);
    let batch = batch_of(mode, requests);
    lemma_modes(mode, front);
    assert(before.input_ids.len() <= batch.input_ids.len());
    assert(inputs_of(mode, requests.last()).len() == positions_of(mode, requests.last()).len());
    if i < front.len() {
        lemma_positions(mode, front, i);
        assert(front[i] == requests[i]);
        let from = before.request_offsets[i] as int;
        let n = before.input_token_counts[i] as int;
        assert forall|k: int| 0 <= k < n implies #[trigger] batch.positions[from + k]
            == positions_of(mode, requests[i])[k] by {
            assert(batch.positions[from + k] == before.positions[from + k]);
        }
        assert forall|k: int| 0 <= k < n implies #[trigger] batch.input_ids[from + k]
            == inputs_of(mode, requests[i])[k] by {
            assert(batch.input_ids[from + k] == before.input_ids[from + k]);
        }
    }
}

/// The lists of a batch are as long as its requests and its tokens.
proof fn lemma_modes(mode: ForwardMode, requests: Seq<ScheduledRequest>)
    ensures
        ({
            let batch = batch_of(mode, requests);
            &&& batch.forward_mode == mode
            &&& batch.positions.len() == batch.input_ids.len()
            &&& batch.request_offsets.len() == requests.len()
            &&& batch.input_token_counts.len() == requests.len()
            &&& batch.request_ids.len() == requests.len()
            &&& batch.cached_token_counts.len() == requests.len()
            &&& batch.prefix_cache_pages.len() == requests.len()
            &&& batch.data_parallel_ranks.len() == requests.len()
            &&& batch.sequence_lengths.len() == requests.len()
        }),
    decreases requests.len(),
{
    if requests.len() > 0 {
        lemma_modes(mode, requests.drop_last());
    }
}

/// A batch that reads prompts holds, for each request, the tokens of the prompt that are not cached, at
/// the places behind those that are. A batch that makes tokens holds the last token made, or zero where
/// none was, at the last place of the sequence.
pub proof fn batches_hold_the_tokens_of_their_requests(
    batch: ScheduleBatch,
    made: ModelWorkerBatch,
    ids: &[u32],
    positions: &[usize],
    offsets: &[usize],
    counts: &[usize],
    cached: &[usize],
    ranks: &[i32],
    i: int,
)
    requires
        call_ensures(ModelWorkerBatch::from_schedule_batch, (&batch,), made),
        call_ensures(ModelWorkerBatch::input_ids, (&made,), ids),
        call_ensures(ModelWorkerBatch::positions, (&made,), positions),
        call_ensures(ModelWorkerBatch::request_offsets, (&made,), offsets),
        call_ensures(ModelWorkerBatch::input_token_counts, (&made,), counts),
        call_ensures(ModelWorkerBatch::cached_token_counts, (&made,), cached),
        call_ensures(ModelWorkerBatch::data_parallel_ranks, (&made,), ranks),
        0 <= i < batch.requests@.len(),
        batch.requests@[i].prefix_cache_pages@.len() + batch.requests@[i].uncached_input_ids@.len()
            <= usize::MAX,
        0 < batch.requests@[i].input_ids@.len() + batch.requests@[i].output_ids@.len()
            <= usize::MAX,
    ensures
        ({
            let request = batch.requests@[i];
            let from = offsets@[i] as int;
            &&& offsets@.len() == batch.requests@.len()
            &&& counts@.len() == batch.requests@.len()
            &&& from + counts@[i] <= ids@.len()
            &&& positions@.len() == ids@.len()
            &&& cached@[i] == request.forward_prefix_token_count
            &&& ranks@[i] == request.data_parallel_rank
            &&& batch.forward_mode == ForwardMode::Prefill ==> {
                &&& counts@[i] == request.uncached_input_ids@.len()
                &&& forall|k: int|
                    0 <= k < counts@[i] ==> #[trigger] ids@[from + k]
                        == request.uncached_input_ids@[k]
                &&& forall|k: int|
                    0 <= k < counts@[i] ==> #[trigger] positions@[from + k]
                        == request.prefix_cache_pages@.len() + k
            }
            &&& batch.forward_mode == ForwardMode::Decode ==> {
                let made_before = request.output_ids@;
                &&& counts@[i] == 1
                &&& ids@[from] == (if made_before.len() == 0 {
                    0u32
                } else {
                    made_before[made_before.len() - 1]
                })
                &&& positions@[from] == request.input_ids@.len() + made_before.len() - 1
            }
        }),
{
    lemma_positions(batch.forward_mode, batch.requests@, i);
    let from = offsets@[i] as int;
    assert(ids@[from + 0] == ids@[from]);
    assert(positions@[from + 0] == positions@[from]);
}

/// A batch lists its requests in order, in every one of its lists.
pub proof fn batches_list_their_requests(
    batch: ScheduleBatch,
    made: ModelWorkerBatch,
    lengths: &[usize],
    sequence: &[u32],
    sequence_offsets: &[usize],
    sequence_counts: &[usize],
    i: int,
)
    requires
        call_ensures(ModelWorkerBatch::from_schedule_batch, (&batch,), made),
        call_ensures(ModelWorkerBatch::sequence_lengths, (&made,), lengths),
        call_ensures(ModelWorkerBatch::sequence_token_ids, (&made,), sequence),
        call_ensures(ModelWorkerBatch::sequence_offsets, (&made,), sequence_offsets),
        call_ensures(ModelWorkerBatch::sequence_token_counts, (&made,), sequence_counts),
        0 <= i < batch.requests@.len(),
        batch.requests@[i].input_ids@.len() + batch.requests@[i].output_ids@.len() <= usize::MAX,
    ensures
        ({
            let request = batch.requests@[i];
            let whole = if batch.forward_mode == ForwardMode::Prefill {
                request.input_ids@
            } else {
                request.input_ids@ + request.output_ids@
            };
            let from = sequence_offsets@[i] as int;
            &&& lengths@.len() == batch.requests@.len()
            &&& lengths@[i] == whole.len()
            &&& sequence_counts@[i] == whole.len()
            &&& from + whole.len() <= sequence@.len()
            &&& sequence@.subrange(from, from + whole.len()) == whole
        }),
{
    crate::model_forward::sequences_stand_in_their_ranges(
        batch.forward_mode,
        batch.requests@,
        i,
    );
    crate::model_forward::offsets_are_running_sums(batch.forward_mode, batch.requests@);
    lemma_modes(batch.forward_mode, batch.requests@);
}

/// The order of the keys is that of the numbers: positive numbers as their bits, negative numbers
/// against their bits, and every negative number before every positive one.
pub proof fn keys_are_ordered_as_numbers(a: u32, b: u32, key_a: i32, key_b: i32)
    requires
        call_ensures(total_order_key, (a,), key_a),
        call_ensures(total_order_key, (b,), key_b),
    ensures
        a < 0x8000_0000 && b < 0x8000_0000 ==> (key_a < key_b <==> a < b),
        a >= 0x8000_0000 && b >= 0x8000_0000 ==> (key_a < key_b <==> a > b),
        a >= 0x8000_0000 && b < 0x8000_0000 ==> key_a < key_b,
        key_a == key_b <==> a == b,
{
}

/// The best token has no better one, and no equally good one behind it. Only without tokens there is no
/// best one.
pub proof fn best_tokens_are_the_last_of_the_best(
    keys: Vec<i32>,
    token: Result<u32, ModelForwardError>,
    other: int,
)
    requires
        call_ensures(argmax_token, (&keys,), token),
        0 <= other < keys@.len(),
    ensures
        token is Ok,
        token->Ok_0 < keys@.len(),
        keys@[other] <= keys@[token->Ok_0 as int],
        keys@[other] == keys@[token->Ok_0 as int] ==> other <= token->Ok_0,
{
}

/// Numbers that are not negative are compared as their bits, both zeros are equal, a negative number is
/// less than a positive one, and what is no number is less than nothing.
pub proof fn numbers_are_compared(a: u32, b: u32, lesser: bool)
    requires
        call_ensures(is_less, (a, b), lesser),
    ensures
        a <= 0x7f80_0000 && b <= 0x7f80_0000 ==> (lesser <==> a < b),
        a == 0x8000_0000 && b == 0 ==> !lesser,
        a == 0 && b == 0x8000_0000 ==> !lesser,
        0x8000_0000 < a <= 0xff80_0000 && b <= 0x7f80_0000 ==> lesser,
        0x8000_0000 <= a <= 0xff80_0000 && 0x8000_0000 <= b <= 0xff80_0000 ==> (lesser <==> a > b),
        0x7f80_0000 < a < 0x8000_0000 || a > 0xff80_0000 ==> !lesser,
        0x7f80_0000 < b < 0x8000_0000 || b > 0xff80_0000 ==> !lesser,
{
}

/// The best token alone is taken where nothing is said of the choice, where the temperature is no more
/// than the step from one to the next number, and where one candidate is asked for. Otherwise a token is
/// drawn.
pub proof fn choices_without_chance_are_known(sampling: SamplingFractions, best: bool)
    requires
        call_ensures(is_greedy, (&sampling,), best),
    ensures
        sampling.top_k == Some(1i32) ==> best,
        sampling.temperature is None && sampling.top_p is None && sampling.top_k is None
            && sampling.min_p is None ==> best,
        sampling.temperature matches Some(bits) ==> bits <= 0x3400_0000 ==> best,
        sampling.temperature matches Some(bits) ==> sampling.top_k != Some(1i32) && 0x3400_0000
            < bits < 0x7f80_0000 ==> !best,
        sampling.temperature is None && sampling.top_k != Some(1i32) && (sampling.top_p is Some
            || sampling.top_k is Some || sampling.min_p is Some) ==> !best,
{
}

/// Penalties are given where one of the first two is not zero or the repetition is not one.
pub proof fn penalties_are_known(sampling: SamplingFractions, has: bool)
    requires
        call_ensures(has_penalties, (&sampling,), has),
    ensures
        has <==> (sampling.frequency_penalty matches Some(bits) && bits != 0 && bits != 0x8000_0000)
            || (sampling.presence_penalty matches Some(bits) && bits != 0 && bits != 0x8000_0000)
            || (sampling.repetition_penalty matches Some(bits) && bits != 0x3f80_0000),
{
}

/// The candidates are as many as were asked for, where fewer than all were, and go from the most likely
/// to the least; of equally likely tokens the first goes first. No other token is more likely than the
/// least likely candidate.
pub proof fn candidates_are_the_most_likely(
    probabilities: Vec<u32>,
    top_k: Option<i32>,
    request_index: usize,
    tokens: Result<Vec<usize>, ModelForwardError>,
    i: int,
    j: int,
)
    requires
        call_ensures(candidates, (&probabilities, top_k, request_index), tokens),
        tokens is Ok,
        0 <= i < j < tokens->Ok_0@.len(),
    ensures
        ({
            let list = tokens->Ok_0@;
            let a = probabilities@[list[i] as int];
            let b = probabilities@[list[j] as int];
            &&& list[i] < probabilities@.len()
            &&& list[j] < probabilities@.len()
            &&& a < 0x8000_0000 && b < 0x8000_0000 ==> a > b || (a == b && list[i] < list[j])
            &&& list.len() == (match top_k {
                Some(k) => if 0 < k < probabilities@.len() {
                    k as int
                } else {
                    probabilities@.len() as int
                },
                None => probabilities@.len() as int,
            })
        }),
{
    let keys = crate::sampling::keys_of(probabilities@);
    let kept = crate::sampling::kept(top_k, probabilities@.len()) as int;
    let ranking = choose|ranking: Seq<usize>|
        crate::sampling::is_ranking(keys, ranking) && tokens->Ok_0@ == #[trigger] ranking.take(
            kept,
        );
    assert(tokens->Ok_0@[i] == ranking[i]);
    assert(tokens->Ok_0@[j] == ranking[j]);
    assert(crate::sampling::ahead(keys, ranking[i] as int, ranking[j] as int));
}

/// A candidate is kept exactly where the candidates before it do not reach the limit and it is likely
/// enough, and the kept ones stay in their order.
pub proof fn kept_candidates_are_likely_enough(
    probabilities: Vec<u32>,
    sums_before: Vec<u32>,
    top_p: u32,
    min_probability: u32,
    places: Vec<usize>,
    place: usize,
)
    requires
        call_ensures(
            keep_candidates,
            (&probabilities, &sums_before, top_p, min_probability),
            places,
        ),
        place < probabilities@.len(),
        probabilities@.len() == sums_before@.len(),
        sums_before@[place as int] <= 0x7f80_0000,
        probabilities@[place as int] <= 0x7f80_0000,
        top_p <= 0x7f80_0000,
        min_probability <= 0x7f80_0000,
    ensures
        places@.contains(place) <==> sums_before@[place as int] < top_p
            && probabilities@[place as int] >= min_probability,
        forall|i: int, j: int| 0 <= i < j < places@.len() ==> places@[i] < places@[j],
{
    assert(probabilities@.len() == probabilities.len());
    crate::sampling::kept_candidates_are_likely(
        probabilities@,
        sums_before@,
        top_p,
        min_probability,
        probabilities@.len(),
    );
}

/// The token drawn is the first whose sum lies above the target, or the last where none does.
pub proof fn drawn_tokens_are_the_first_above_the_target(
    tokens: Vec<usize>,
    sums: Vec<u32>,
    target: u32,
    request_index: usize,
    token: Result<u32, ModelForwardError>,
    i: int,
)
    requires
        call_ensures(pick_token, (&tokens, &sums, target, request_index), token),
        tokens@.len() == sums@.len(),
        0 <= i < tokens@.len(),
        target <= 0x7f80_0000,
        forall|j: int| 0 <= j < sums@.len() ==> #[trigger] sums@[j] <= 0x7f80_0000,
        forall|j: int| 0 <= j < i ==> #[trigger] sums@[j] <= target,
        sums@[i] > target || i == tokens@.len() - 1,
    ensures
        token is Ok,
        token->Ok_0 == tokens@[i],
{
    let k = choose|k: int| #[trigger]
        crate::sampling::falls_on(sums@, target, k) && token->Ok_0 == tokens@[k];
    if k < i {
        assert(sums@[k] <= target);
    } else if i < k {
        assert(!crate::sampling::less(target, sums@[i]));
    }
}

/// A random number is taken as it is where it lies between zero and one, as zero where it is below or is
/// no number, and as the last number below one where it is above.
pub proof fn random_numbers_are_bounded(random: u32, bounded: u32)
    requires
        call_ensures(bounded_unit, (random,), bounded),
    ensures
        random <= 0x3f7f_ffff ==> bounded == random,
        0x3f80_0000 <= random < 0x7f80_0000 ==> bounded == 0x3f7f_ffff,
        0x7f80_0000 <= random < 0x8000_0000 ==> bounded == 0,
        random > 0x8000_0000 ==> bounded == 0,
{
}

proof fn lemma_occurrences(tokens: Seq<u32>, token: u32)
    ensures
        occurrences(tokens, token) == tokens.to_multiset().count(token),
    decreases tokens.len(),
{
    broadcast use vstd::seq_lib::group_to_multiset_ensures;

    if tokens.len() == 0 {
        assert(tokens =~= Seq::empty());
    } else {
        lemma_occurrences(tokens.drop_last(), token);
        assert(tokens =~= tokens.drop_last().push(tokens.last()));
    }
}

/// Every token of the prompt and of the output is counted once, as often as it occurs.
pub proof fn tokens_are_counted(
    input_ids: Vec<u32>,
    output_ids: Vec<u32>,
    counts: Vec<(u32, usize)>,
    i: int,
    token: u32,
)
    requires
        call_ensures(token_counts, (&input_ids, &output_ids), counts),
        0 <= i < counts@.len(),
    ensures
        counts@[i].1 == (input_ids@ + output_ids@).to_multiset().count(counts@[i].0),
        counts@[i].1 > 0,
        input_ids@.contains(token) || output_ids@.contains(token) ==> exists|j: int|
            0 <= j < counts@.len() && (#[trigger] counts@[j]).0 == token,
        forall|j: int| 0 <= j < counts@.len() && j != i ==> (#[trigger] counts@[j]).0 != counts@[i].0,
{
    let all = input_ids@ + output_ids@;
    lemma_occurrences(all, counts@[i].0);
    lemma_occurrences(all, token);
    broadcast use vstd::seq_lib::group_to_multiset_ensures;

    if input_ids@.contains(token) {
        let k = choose|k: int| 0 <= k < input_ids@.len() && input_ids@[k] == token;
        assert(all[k] == token);
    }
    if output_ids@.contains(token) {
        let k = choose|k: int| 0 <= k < output_ids@.len() && output_ids@[k] == token;
        assert(all[input_ids@.len() + k] == token);
    }
}

/// The logits of a request are those of its last token.
pub proof fn logits_are_those_of_the_last_tokens<T: Copy>(
    batch: ModelWorkerBatch,
    token_logits: Vec<Vec<T>>,
    output: Result<ModelForwardOutput<T>, ModelForwardError>,
    i: int,
)
    requires
        call_ensures(
            ModelForwardOutput::<T>::from_token_logits,
            (&batch, token_logits),
            output,
        ),
        output is Ok,
        0 <= i < batch@.request_offsets.len(),
    ensures
        output->Ok_0@.len() == batch@.request_offsets.len(),
        output->Ok_0@[i] == token_logits@[batch@.request_offsets[i] + batch@.input_token_counts[i]
            - 1]@,
        token_logits@.len() == batch@.input_ids.len(),
{
}

/// A batch grows by its last request: by the pages that it writes, the pages of its sequence, its
/// name, the pages of its prefix and the place where its servers meet.
pub proof fn batches_grow_by_their_last_request(
    batch: ScheduleBatch,
    shorter: ScheduleBatch,
    made: ModelWorkerBatch,
    before: ModelWorkerBatch,
    out: (&[CachePageId], &[CachePageId]),
    pages: (&[CachePageId], &[CachePageId]),
    ids: &[RequestId],
    prefix: &[Vec<CachePageId>],
    params: &[Option<DisaggregatedParams>],
)
    requires
        batch.requests@.len() > 0,
        shorter.forward_mode == batch.forward_mode,
        shorter.requests@ == batch.requests@.drop_last(),
        call_ensures(ModelWorkerBatch::from_schedule_batch, (&batch,), made),
        call_ensures(ModelWorkerBatch::from_schedule_batch, (&shorter,), before),
        call_ensures(ModelWorkerBatch::out_cache_pages, (&made,), out.0),
        call_ensures(ModelWorkerBatch::out_cache_pages, (&before,), out.1),
        call_ensures(ModelWorkerBatch::sequence_cache_pages, (&made,), pages.0),
        call_ensures(ModelWorkerBatch::sequence_cache_pages, (&before,), pages.1),
        call_ensures(ModelWorkerBatch::request_ids, (&made,), ids),
        call_ensures(ModelWorkerBatch::prefix_cache_pages, (&made,), prefix),
        call_ensures(ModelWorkerBatch::disaggregated_params, (&made,), params),
    ensures
        ({
            let last = batch.requests@.last();
            &&& out.0@ == out.1@ + last.forward_cache_pages@
            &&& pages.0@ == pages.1@ + last.sequence_cache_pages@
            &&& ids@.len() == batch.requests@.len()
            &&& ids@.last()@ == last.request_id@
            &&& prefix@.len() == batch.requests@.len()
            &&& prefix@.last()@ == last.prefix_cache_pages@
            &&& params@.len() == batch.requests@.len()
            &&& params@.last() is Some <==> last.disaggregated_params is Some
            &&& params@.last() matches Some(place) ==> {
                &&& place.bootstrap_host@ == last.disaggregated_params->0.bootstrap_host@
                &&& place.bootstrap_port == last.disaggregated_params->0.bootstrap_port
                &&& place.bootstrap_room == last.disaggregated_params->0.bootstrap_room
            }
        }),
{
    lemma_modes(batch.forward_mode, batch.requests@);
    lemma_modes(batch.forward_mode, shorter.requests@);
    lemma_places(batch.forward_mode, batch.requests@);
    let n = batch.requests@.len() - 1;
    assert(made@.request_ids.len() == ids@.len());
    assert(made@.request_ids[n] == ids@[n]@);
    assert(made@.prefix_cache_pages.len() == prefix@.len());
    assert(made@.prefix_cache_pages[n] == prefix@[n]@);
    assert(made@.meeting_places.len() == params@.len());
    assert(made@.meeting_places[n] == crate::model_executor::meeting_place(params@[n]));
}

/// A batch has a meeting, or none, for each request.
proof fn lemma_places(mode: ForwardMode, requests: Seq<ScheduledRequest>)
    ensures
        batch_of(mode, requests).meeting_places.len() == requests.len(),
    decreases requests.len(),
{
    if requests.len() > 0 {
        lemma_places(mode, requests.drop_last());
    }
}

} // verus!
