//! How the next token is chosen by its scores. Fractions are given by the bits of their binary32
//! values.
use vstd::prelude::*;

use crate::model_forward::{total_order, total_order_key, ForwardFault, ModelForwardError};

verus! {

/// How the next token of a request is chosen.
#[derive(Clone, Copy, Debug, PartialEq, Eq, Structural)]
pub struct SamplingFractions {
    pub temperature: Option<u32>,
    pub top_p: Option<u32>,
    pub top_k: Option<i32>,
    pub min_p: Option<u32>,
    pub frequency_penalty: Option<u32>,
    pub presence_penalty: Option<u32>,
    pub repetition_penalty: Option<u32>,
}

/// Whether a binary32 value is no number.
pub open spec fn no_number(bits: u32) -> bool {
    bits % 0x8000_0000 > 0x7f80_0000
}

/// The place of a binary32 value among the numbers; both zeros have one place.
pub open spec fn magnitude(bits: u32) -> int {
    if bits < 0x8000_0000 {
        bits as int
    } else {
        -(bits - 0x8000_0000)
    }
}

/// Whether one binary32 value is less than another.
pub open spec fn less(a: u32, b: u32) -> bool {
    !no_number(a) && !no_number(b) && magnitude(a) < magnitude(b)
}

/// Whether one binary32 value is less than another.
pub fn is_less(a: u32, b: u32) -> (is: bool)
    ensures
        is == less(a, b),
{
    if a % 0x8000_0000 > 0x7f80_0000 || b % 0x8000_0000 > 0x7f80_0000 {
        return false;
    }
    let left: i64 = if a < 0x8000_0000 {
        a as i64
    } else {
        0x8000_0000 - a as i64
    };
    let right: i64 = if b < 0x8000_0000 {
        b as i64
    } else {
        0x8000_0000 - b as i64
    };
    left < right
}

/// Whether a binary32 value is finite and positive.
pub open spec fn positive(bits: u32) -> bool {
    0 < bits < 0x7f80_0000
}

/// Whether a binary32 value is finite and not less than zero.
pub open spec fn is_probability(bits: u32) -> bool {
    bits < 0x7f80_0000 || bits == 0x8000_0000
}

/// The bits of the distance from one to the next binary32 value.
pub const EPSILON: u32 = 0x3400_0000;

/// The bits of one.
pub const ONE: u32 = 0x3f80_0000;

/// Whether the token with the highest score is chosen: nothing is asked for, or the temperature is next
/// to nothing, or one token is to be kept.
pub open spec fn greedy(s: SamplingFractions) -> bool {
    let temperature = match s.temperature {
        Some(bits) => bits,
        None => ONE,
    };
    (s.temperature is None && s.top_p is None && s.top_k is None && s.min_p is None) || less(
        temperature,
        EPSILON,
    ) || temperature == EPSILON || s.top_k == Some(1i32)
}

/// Whether the token with the highest score is chosen.
pub fn is_greedy(sampling: &SamplingFractions) -> (is: bool)
    ensures
        is == greedy(*sampling),
{
    if sampling.temperature.is_none() && sampling.top_p.is_none() && sampling.top_k.is_none()
        && sampling.min_p.is_none() {
        return true;
    }
    let temperature: u32 = match sampling.temperature {
        Some(bits) => bits,
        None => ONE,
    };
    let one = match sampling.top_k {
        Some(k) => k == 1,
        None => false,
    };
    is_less(temperature, EPSILON) || temperature == EPSILON || one
}

/// Whether a fraction is missing or zero.
pub open spec fn is_zero(value: Option<u32>) -> bool {
    value is None || value->0 == 0 || value->0 == 0x8000_0000
}

/// Whether tokens that have occurred are scored down.
pub open spec fn penalised(s: SamplingFractions) -> bool {
    !is_zero(s.frequency_penalty) || !is_zero(s.presence_penalty) || (s.repetition_penalty is Some
        && s.repetition_penalty->0 != ONE)
}

fn zero(value: Option<u32>) -> (is: bool)
    ensures
        is == is_zero(value),
{
    match value {
        Some(bits) => bits == 0 || bits == 0x8000_0000,
        None => true,
    }
}

/// Whether tokens that have occurred are scored down.
pub fn has_penalties(sampling: &SamplingFractions) -> (has: bool)
    ensures
        has == penalised(*sampling),
{
    let repeated = match sampling.repetition_penalty {
        Some(bits) => bits != ONE,
        None => false,
    };
    !zero(sampling.frequency_penalty) || !zero(sampling.presence_penalty) || repeated
}

/// How often a token occurs.
pub open spec fn occurrences(tokens: Seq<u32>, token: u32) -> nat
    decreases tokens.len(),
{
    if tokens.len() == 0 {
        0
    } else if tokens.last() == token {
        occurrences(tokens.drop_last(), token) + 1
    } else {
        occurrences(tokens.drop_last(), token)
    }
}

/// Whether `counts` tells of every token that occurs, once and rightly, how often it does.
pub open spec fn counts_of(counts: Seq<(u32, usize)>, tokens: Seq<u32>) -> bool {
    &&& forall|i: int, j: int|
        0 <= i < j < counts.len() ==> (#[trigger] counts[i]).0 != (#[trigger] counts[j]).0
    &&& forall|i: int|
        0 <= i < counts.len() ==> (#[trigger] counts[i]).1 == occurrences(tokens, counts[i].0)
            && counts[i].1 > 0
    &&& forall|t: u32| #[trigger]
        occurrences(tokens, t) > 0 ==> exists|i: int|
            0 <= i < counts.len() && (#[trigger] counts[i]).0 == t
}

proof fn lemma_occurrences_len(tokens: Seq<u32>, token: u32)
    ensures
        occurrences(tokens, token) <= tokens.len(),
    decreases tokens.len(),
{
    if tokens.len() > 0 {
        lemma_occurrences_len(tokens.drop_last(), token);
    }
}

fn count_token(counts: &mut Vec<(u32, usize)>, token: u32, Ghost(before): Ghost<Seq<u32>>)
    requires
        counts_of(old(counts)@, before),
        before.len() < usize::MAX,
    ensures
        counts_of(final(counts)@, before.push(token)),
{
    let ghost after = before.push(token);
    let ghost held = counts@;
    proof {
        assert(after.drop_last() =~= before);
        assert forall|t: u32| #[trigger] occurrences(after, t) == occurrences(before, t) + (if t
            == token {
            1nat
        } else {
            0nat
        }) by {
        }
        lemma_occurrences_len(before, token);
    }
    let mut i: usize = 0;
    while i < counts.len()
        invariant
            i <= counts@.len(),
            counts@ == held,
            counts_of(held, before),
            after == before.push(token),
            before.len() < usize::MAX,
            occurrences(before, token) <= before.len(),
            forall|t: u32| #[trigger]
                occurrences(after, t) == occurrences(before, t) + (if t == token {
                    1nat
                } else {
                    0nat
                }),
            forall|j: int| 0 <= j < i ==> (#[trigger] held[j]).0 != token,
        decreases counts@.len() - i,
    {
        let entry = counts[i];
        if entry.0 == token {
            counts[i] = (token, entry.1 + 1);
            proof {
                let now = counts@;
                assert(now == held.update(i as int, (token, (entry.1 + 1) as usize)));
                assert forall|a: int, b: int| 0 <= a < b < now.len() implies (
                #[trigger] now[a]).0 != (#[trigger] now[b]).0 by {
                    assert(held[a].0 != held[b].0);
                }
                assert forall|a: int| 0 <= a < now.len() implies (#[trigger] now[a]).1
                    == occurrences(after, now[a].0) && now[a].1 > 0 by {
                    assert(held[a].1 == occurrences(before, held[a].0));
                    if a != i {
                        if a < i {
                            assert(held[a].0 != held[i as int].0);
                        } else {
                            assert(held[i as int].0 != held[a].0);
                        }
                    }
                }
                assert forall|t: u32| #[trigger] occurrences(after, t) > 0 implies exists|a: int|
                    0 <= a < now.len() && (#[trigger] now[a]).0 == t by {
                    if t == token {
                        assert(now[i as int].0 == t);
                    } else {
                        let a = choose|a: int| 0 <= a < held.len() && (#[trigger] held[a]).0 == t;
                        assert(now[a].0 == t);
                    }
                }
            }
            return ;
        }
        i = i + 1;
    }
    counts.push((token, 1));
    proof {
        let now = counts@;
        assert(occurrences(before, token) == 0) by {
            if occurrences(before, token) > 0 {
                let a = choose|a: int| 0 <= a < held.len() && (#[trigger] held[a]).0 == token;
                assert(held[a].0 != token);
            }
        }
        assert forall|a: int, b: int| 0 <= a < b < now.len() implies (#[trigger] now[a]).0 != (
        #[trigger] now[b]).0 by {
            assert(now[a] == held[a]);
            if b < held.len() {
                assert(held[a].0 != held[b].0);
            }
        }
        assert forall|a: int| 0 <= a < now.len() implies (#[trigger] now[a]).1 == occurrences(
            after,
            now[a].0,
        ) && now[a].1 > 0 by {
            if a < held.len() {
                assert(now[a] == held[a]);
            }
        }
        assert forall|t: u32| #[trigger] occurrences(after, t) > 0 implies exists|a: int|
            0 <= a < now.len() && (#[trigger] now[a]).0 == t by {
            if t == token {
                assert(now[held.len() as int].0 == t);
            } else {
                let a = choose|a: int| 0 <= a < held.len() && (#[trigger] held[a]).0 == t;
                assert(now[a].0 == t);
            }
        }
    }
}

/// How often each token occurs in the text of a request and what has been added to it.
pub fn token_counts(input_ids: &Vec<u32>, output_ids: &Vec<u32>) -> (counts: Vec<(u32, usize)>)
    requires
        input_ids@.len() + output_ids@.len() <= usize::MAX,
    ensures
        counts_of(counts@, input_ids@ + output_ids@),
{
    let mut counts: Vec<(u32, usize)> = Vec::new();
    let ghost all = input_ids@ + output_ids@;
    let mut i: usize = 0;
    proof {
        assert(all.take(0) =~= Seq::<u32>::empty());
    }
    while i < input_ids.len()
        invariant
            i <= input_ids@.len(),
            all == input_ids@ + output_ids@,
            all.len() <= usize::MAX,
            counts_of(counts@, all.take(i as int)),
        decreases input_ids@.len() - i,
    {
        count_token(&mut counts, input_ids[i], Ghost(all.take(i as int)));
        proof {
            assert(all.take(i as int).push(input_ids@[i as int]) =~= all.take(i + 1));
        }
        i = i + 1;
    }
    let mut k: usize = 0;
    while k < output_ids.len()
        invariant
            k <= output_ids@.len(),
            all == input_ids@ + output_ids@,
            all.len() <= usize::MAX,
            counts_of(counts@, all.take(input_ids@.len() + k)),
        decreases output_ids@.len() - k,
    {
        count_token(&mut counts, output_ids[k], Ghost(all.take(input_ids@.len() + k)));
        proof {
            assert(all.take(input_ids@.len() + k).push(output_ids@[k as int]) =~= all.take(
                input_ids@.len() + k + 1,
            ));
        }
        k = k + 1;
    }
    proof {
        assert(all.take(input_ids@.len() + k) =~= all);
    }
    counts
}

/// Whether one token comes before another: its key is greater, or as great and it is the lower token.
pub open spec fn ahead(keys: Seq<i32>, a: int, b: int) -> bool {
    keys[a] > keys[b] || (keys[a] == keys[b] && a < b)
}

/// Whether `list` holds tokens from `from` to `to`, each ahead of the next.
pub open spec fn ranks(keys: Seq<i32>, list: Seq<usize>, from: int, to: int) -> bool {
    &&& list.len() == to - from
    &&& forall|i: int| 0 <= i < list.len() ==> from <= #[trigger] list[i] < to
    &&& forall|i: int, j: int|
        0 <= i < j < list.len() ==> ahead(
            keys,
            (#[trigger] list[i]) as int,
            (#[trigger] list[j]) as int,
        )
}

/// Whether `list` is all tokens in the order of their keys, the greatest first.
pub open spec fn is_ranking(keys: Seq<i32>, list: Seq<usize>) -> bool {
    ranks(keys, list, 0, keys.len() as int)
}

/// A ranking holds every token exactly once.
pub proof fn rankings_hold_every_token(keys: Seq<i32>, list: Seq<usize>, token: usize)
    requires
        is_ranking(keys, list),
        token < keys.len(),
    ensures
        list.no_duplicates(),
        list.contains(token),
{
    assert(list.no_duplicates()) by {
        assert forall|i: int, j: int| 0 <= i < j < list.len() implies list[i] != list[j] by {
            assert(ahead(keys, list[i] as int, list[j] as int));
        }
    }
    if !list.contains(token) {
        let n = keys.len();
        list.unique_seq_to_set();
        let all = Seq::new(n, |i: int| i as usize);
        let without = all.to_set().remove(token);
        all.lemma_cardinality_of_set();
        assert(all[token as int] == token);
        assert(all.to_set().contains(token));
        assert(list.to_set().subset_of(without)) by {
            assert forall|t: usize| list.to_set().contains(t) implies without.contains(t) by {
                let i = choose|i: int| 0 <= i < list.len() && list[i] == t;
                assert(0 <= list[i] < n);
                assert(all[t as int] == t);
            }
        }
        vstd::set_lib::lemma_len_subset(list.to_set(), without);
    }
}

/// There is but one ranking.
pub proof fn rankings_are_unique(keys: Seq<i32>, a: Seq<usize>, b: Seq<usize>)
    requires
        is_ranking(keys, a),
        is_ranking(keys, b),
    ensures
        a == b,
{
    assert forall|i: int| 0 <= i < a.len() implies a[i] == b[i] by {
        lemma_same_place(keys, a, b, i);
    }
    assert(a =~= b);
}

proof fn lemma_same_place(keys: Seq<i32>, a: Seq<usize>, b: Seq<usize>, i: int)
    requires
        is_ranking(keys, a),
        is_ranking(keys, b),
        0 <= i < a.len(),
    ensures
        a[i] == b[i],
    decreases i,
{
    if a[i] != b[i] {
        rankings_hold_every_token(keys, b, a[i]);
        rankings_hold_every_token(keys, a, b[i]);
        let p = choose|p: int| 0 <= p < b.len() && b[p] == a[i];
        let q = choose|q: int| 0 <= q < a.len() && a[q] == b[i];
        if p < i {
            lemma_same_place(keys, a, b, p);
            rankings_hold_every_token(keys, a, a[i]);
        } else if q < i {
            lemma_same_place(keys, a, b, q);
            rankings_hold_every_token(keys, b, b[i]);
        } else {
            assert(ahead(keys, b[i] as int, b[p] as int));
            assert(ahead(keys, a[i] as int, a[q] as int));
        }
    }
}

fn merge(keys: &Vec<i32>, left: &Vec<usize>, right: &Vec<usize>, Ghost(from): Ghost<int>,
    Ghost(mid): Ghost<int>, Ghost(to): Ghost<int>) -> (list: Vec<usize>)
    requires
        0 <= from <= mid <= to <= keys@.len(),
        ranks(keys@, left@, from, mid),
        ranks(keys@, right@, mid, to),
    ensures
        ranks(keys@, list@, from, to),
{
    let mut list: Vec<usize> = Vec::new();
    let mut i: usize = 0;
    let mut j: usize = 0;
    let ghost k = keys@;
    while i < left.len() || j < right.len()
        invariant
            k == keys@,
            0 <= from <= mid <= to <= k.len(),
            ranks(k, left@, from, mid),
            ranks(k, right@, mid, to),
            i <= left@.len(),
            j <= right@.len(),
            list@.len() == i + j,
            forall|a: int| 0 <= a < list@.len() ==> from <= #[trigger] list@[a] < to,
            forall|a: int, b: int|
                0 <= a < b < list@.len() ==> ahead(
                    k,
                    (#[trigger] list@[a]) as int,
                    (#[trigger] list@[b]) as int,
                ),
            forall|a: int, b: int|
                0 <= a < list@.len() && i <= b < left@.len() ==> ahead(
                    k,
                    (#[trigger] list@[a]) as int,
                    (#[trigger] left@[b]) as int,
                ),
            forall|a: int, b: int|
                0 <= a < list@.len() && j <= b < right@.len() ==> ahead(
                    k,
                    (#[trigger] list@[a]) as int,
                    (#[trigger] right@[b]) as int,
                ),
        decreases left@.len() - i + right@.len() - j,
    {
        let ghost before = list@;
        let take_left = if i >= left.len() {
            false
        } else if j >= right.len() {
            true
        } else {
            keys[left[i]] >= keys[right[j]]
        };
        if take_left {
            let token: usize = left[i];
            list.push(token);
            proof {
                assert forall|b: int| j <= b < right@.len() implies ahead(
                    k,
                    token as int,
                    (#[trigger] right@[b]) as int,
                ) by {
                    if b > j {
                        assert(ahead(k, right@[j as int] as int, right@[b] as int));
                    }
                }
                assert forall|b: int| i < b < left@.len() implies ahead(
                    k,
                    token as int,
                    (#[trigger] left@[b]) as int,
                ) by {
                    assert(ahead(k, left@[i as int] as int, left@[b] as int));
                }
            }
            i = i + 1;
        } else {
            let token: usize = right[j];
            list.push(token);
            proof {
                assert forall|b: int| i <= b < left@.len() implies ahead(
                    k,
                    token as int,
                    (#[trigger] left@[b]) as int,
                ) by {
                    if b > i {
                        assert(ahead(k, left@[i as int] as int, left@[b] as int));
                    }
                }
                assert forall|b: int| j < b < right@.len() implies ahead(
                    k,
                    token as int,
                    (#[trigger] right@[b]) as int,
                ) by {
                    assert(ahead(k, right@[j as int] as int, right@[b] as int));
                }
            }
            j = j + 1;
        }
        proof {
            assert forall|a: int| 0 <= a < before.len() implies list@[a] == before[a] by {
            }
        }
    }
    list
}

fn rank_range(keys: &Vec<i32>, from: usize, to: usize) -> (list: Vec<usize>)
    requires
        from <= to <= keys@.len(),
    ensures
        ranks(keys@, list@, from as int, to as int),
    decreases to - from,
{
    let mut list: Vec<usize> = Vec::new();
    if from == to {
        return list;
    }
    if to - from == 1 {
        list.push(from);
        return list;
    }
    let mid: usize = from + (to - from) / 2;
    let left = rank_range(keys, from, mid);
    let right = rank_range(keys, mid, to);
    merge(keys, &left, &right, Ghost(from as int), Ghost(mid as int), Ghost(to as int))
}

/// All tokens in the order of their keys, the greatest first; of equal keys the lower token first.
pub fn rank_tokens(keys: &Vec<i32>) -> (list: Vec<usize>)
    ensures
        is_ranking(keys@, list@),
{
    rank_range(keys, 0, keys.len())
}

/// How many of `count` tokens are kept.
pub open spec fn kept(top_k: Option<i32>, count: nat) -> nat {
    if top_k is Some && 0 < top_k->0 && (top_k->0 as nat) < count {
        top_k->0 as nat
    } else {
        count
    }
}

/// The keys of probabilities.
pub open spec fn keys_of(probabilities: Seq<u32>) -> Seq<i32> {
    probabilities.map_values(|bits: u32| total_order(bits) as i32)
}

/// The tokens among which one is chosen, the most probable first; `probabilities` must be finite and not
/// negative.
pub fn candidates(probabilities: &Vec<u32>, top_k: Option<i32>, request_index: usize) -> (tokens:
    Result<Vec<usize>, ModelForwardError>)
    ensures
        match tokens {
            Ok(list) => probabilities@.len() > 0 && (forall|i: int|
                0 <= i < probabilities@.len() ==> is_probability(#[trigger] probabilities@[i]))
                && exists|ranking: Seq<usize>|
                is_ranking(keys_of(probabilities@), ranking) && list@ == #[trigger] ranking.take(
                    kept(top_k, probabilities@.len()) as int,
                ),
            Err(e) => if exists|i: int|
                0 <= i < probabilities@.len() && !is_probability(#[trigger] probabilities@[i]) {
                e@ == (ForwardFault::InvalidProbabilityDistribution { request_index })
            } else {
                probabilities@.len() == 0 && e@ == ForwardFault::EmptyVocabulary
            },
        },
{
    let mut keys: Vec<i32> = Vec::new();
    let mut i: usize = 0;
    while i < probabilities.len()
        invariant
            i <= probabilities@.len(),
            keys@.len() == i,
            forall|j: int| 0 <= j < i ==> is_probability(#[trigger] probabilities@[j]),
            forall|j: int| 0 <= j < i ==> #[trigger] keys@[j] == total_order(probabilities@[j]),
        decreases probabilities@.len() - i,
    {
        let bits: u32 = probabilities[i];
        if bits >= 0x7f80_0000 && bits != 0x8000_0000 {
            proof {
                assert(!is_probability(probabilities@[i as int]));
            }
            return Err(ModelForwardError::InvalidProbabilityDistribution { request_index });
        }
        keys.push(total_order_key(bits));
        i = i + 1;
    }
    if probabilities.len() == 0 {
        return Err(ModelForwardError::EmptyVocabulary);
    }
    proof {
        assert(keys@ =~= keys_of(probabilities@));
    }
    let ranking = rank_tokens(&keys);
    let ghost whole = ranking@;
    let count: usize = match top_k {
        Some(k) => if k > 0 && (k as u64) < ranking.len() as u64 {
            k as usize
        } else {
            ranking.len()
        },
        None => ranking.len(),
    };
    let mut ranking = ranking;
    ranking.truncate(count);
    proof {
        assert(ranking@ =~= whole.take(count as int));
        assert(whole.take(kept(top_k, probabilities@.len()) as int) == ranking@);
    }
    Ok(ranking)
}

/// Whether a sum of probabilities can be used: it is finite and positive.
pub fn check_total(total: u32, request_index: usize) -> (valid: Result<(), ModelForwardError>)
    ensures
        match valid {
            Ok(_) => positive(total),
            Err(e) => !positive(total) && e@ == (ForwardFault::InvalidProbabilityDistribution {
                request_index,
            }),
        },
{
    if total == 0 || total >= 0x7f80_0000 {
        return Err(ModelForwardError::InvalidProbabilityDistribution { request_index });
    }
    Ok(())
}

/// Those of the candidates that are kept, by their places among the first `n`: the probability of those
/// before must be less than `top_p`, and its own at least `min_probability`.
pub open spec fn kept_places(
    probabilities: Seq<u32>,
    sums_before: Seq<u32>,
    top_p: u32,
    min_probability: u32,
    n: nat,
) -> Seq<usize>
    decreases n,
{
    if n == 0 || n > probabilities.len() {
        Seq::empty()
    } else {
        let before = kept_places(
            probabilities,
            sums_before,
            top_p,
            min_probability,
            (n - 1) as nat,
        );
        if less(sums_before[n - 1], top_p) && at_least(probabilities[n - 1], min_probability) {
            before.push((n - 1) as usize)
        } else {
            before
        }
    }
}

/// Whether one binary32 value is at least another.
pub open spec fn at_least(a: u32, b: u32) -> bool {
    !no_number(a) && !no_number(b) && magnitude(a) >= magnitude(b)
}

/// A candidate is kept exactly where the sum before it is below `top_p` and it is likely enough, and
/// the candidates that are kept stay in their order.
pub proof fn kept_candidates_are_likely(
    probabilities: Seq<u32>,
    sums_before: Seq<u32>,
    top_p: u32,
    min_probability: u32,
    n: nat,
)
    requires
        n <= probabilities.len() <= usize::MAX,
    ensures
        ({
            let places = kept_places(probabilities, sums_before, top_p, min_probability, n);
            &&& forall|i: int|
                0 <= i < places.len() ==> (#[trigger] places[i]) < n && less(
                    sums_before[places[i] as int],
                    top_p,
                ) && at_least(probabilities[places[i] as int], min_probability)
            &&& forall|place: usize|
                place < n && less(#[trigger] sums_before[place as int], top_p) && at_least(
                    probabilities[place as int],
                    min_probability,
                ) ==> places.contains(place)
            &&& forall|i: int, j: int| 0 <= i < j < places.len() ==> places[i] < places[j]
        }),
    decreases n,
{
    if n > 0 {
        let m = (n - 1) as nat;
        kept_candidates_are_likely(probabilities, sums_before, top_p, min_probability, m);
        let before = kept_places(probabilities, sums_before, top_p, min_probability, m);
        let places = kept_places(probabilities, sums_before, top_p, min_probability, n);
        assert forall|place: usize|
            place < n && less(#[trigger] sums_before[place as int], top_p) && at_least(
                probabilities[place as int],
                min_probability,
            ) implies places.contains(place) by {
            if place < m {
                let i = choose|i: int| 0 <= i < before.len() && before[i] == place;
                assert(places[i] == place);
            } else {
                assert(places[places.len() - 1] == place);
            }
        }
    }
}

/// Those of the candidates that are kept, by their places. `probabilities` and `sums_before` are those of
/// the candidates in their order.
pub fn keep_candidates(
    probabilities: &Vec<u32>,
    sums_before: &Vec<u32>,
    top_p: u32,
    min_probability: u32,
) -> (places: Vec<usize>)
    requires
        probabilities@.len() == sums_before@.len(),
    ensures
        places@ == kept_places(
            probabilities@,
            sums_before@,
            top_p,
            min_probability,
            probabilities@.len(),
        ),
{
    let mut places: Vec<usize> = Vec::new();
    let mut i: usize = 0;
    proof {
        assert(places@ =~= Seq::empty());
    }
    while i < probabilities.len()
        invariant
            i <= probabilities@.len(),
            probabilities@.len() == sums_before@.len(),
            places@ == kept_places(
                probabilities@,
                sums_before@,
                top_p,
                min_probability,
                i as nat,
            ),
        decreases probabilities@.len() - i,
    {
        let probability: u32 = probabilities[i];
        let numbers = probability % 0x8000_0000 <= 0x7f80_0000 && min_probability % 0x8000_0000
            <= 0x7f80_0000;
        if is_less(sums_before[i], top_p) && numbers && !is_less(probability, min_probability) {
            places.push(i);
        }
        i = i + 1;
    }
    places
}

/// Whether a token is the one that a target falls on: the first whose running sum exceeds it, or the last.
pub open spec fn falls_on(sums: Seq<u32>, target: u32, i: int) -> bool {
    &&& 0 <= i < sums.len()
    &&& less(target, sums[i]) || i == sums.len() - 1
    &&& forall|j: int| 0 <= j < i ==> !less(target, #[trigger] sums[j])
}

/// The token that a target falls on.
pub fn pick_token(tokens: &Vec<usize>, sums: &Vec<u32>, target: u32, request_index: usize) -> (token:
    Result<u32, ModelForwardError>)
    requires
        tokens@.len() == sums@.len(),
        forall|i: int| 0 <= i < tokens@.len() ==> #[trigger] tokens@[i] <= u32::MAX,
    ensures
        match token {
            Ok(t) => exists|i: int| #[trigger] falls_on(sums@, target, i) && t == tokens@[i],
            Err(e) => tokens@.len() == 0 && e@ == (ForwardFault::InvalidProbabilityDistribution {
                request_index,
            }),
        },
{
    let total: usize = tokens.len();
    if total == 0 {
        return Err(ModelForwardError::InvalidProbabilityDistribution { request_index });
    }
    let mut i: usize = 0;
    while i < total - 1 && !is_less(target, sums[i])
        invariant
            total == tokens@.len(),
            tokens@.len() == sums@.len(),
            i < total,
            forall|j: int| 0 <= j < i ==> !less(target, #[trigger] sums@[j]),
        decreases total - i,
    {
        i = i + 1;
    }
    proof {
        assert(falls_on(sums@, target, i as int));
    }
    Ok(tokens[i] as u32)
}

/// The bits of the greatest binary32 value below one.
pub const BELOW_ONE: u32 = 0x3f7f_ffff;

/// A random number in the range from zero to one, one left out; zero in the place of what is no number.
pub fn bounded_unit(random: u32) -> (bounded: u32)
    ensures
        bounded == (if random % 0x8000_0000 >= 0x7f80_0000 {
            0
        } else if random > 0x8000_0000 {
            0
        } else if random < 0x8000_0000 && random > BELOW_ONE {
            BELOW_ONE
        } else {
            random
        }),
        bounded <= BELOW_ONE || bounded == 0x8000_0000,
{
    if random % 0x8000_0000 >= 0x7f80_0000 {
        0
    } else if random > 0x8000_0000 {
        0
    } else if random < 0x8000_0000 && random > BELOW_ONE {
        BELOW_ONE
    } else {
        random
    }
}

} // verus!
