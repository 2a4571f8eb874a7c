//! Which experts of a mixture a token is given to. Scores and weights are given by the bits of their
//! binary32 values.
use vstd::prelude::*;
use vstd::string::*;

use crate::decoder_plans::MoeFeedForwardConfig;
use crate::model_forward::{total_order, total_order_key};
use crate::text::{cat2, cat3, cat4, cat5, decimal, decimal_usize};

verus! {

/// An expert that a token is given to, and the weight of its answer.
#[derive(Clone, Copy, Debug, PartialEq, Eq, Structural)]
pub struct RoutedExpert {
    pub index: usize,
    pub weight: u32,
}

/// Why tokens cannot be given to experts.
#[derive(Clone, Copy, Debug, PartialEq, Eq)]
pub enum MoeRoutingError {
    ZeroDimension(&'static str),
    ExpertsPerTokenOutOfRange { experts_per_token: usize, routed_expert_count: usize },
    UnevenExpertGroups { routed_expert_count: usize, expert_group_count: usize },
    SelectedGroupCountOutOfRange { selected: usize, available: usize },
    SelectedGroupsTooSmall { experts_per_token: usize, selected_capacity: usize },
    InvalidScalingFactor(u32),
    CorrectionBiasCountMismatch { expected: usize, actual: usize },
    LogitCountMismatch { expected: usize, actual: usize },
    NonFiniteLogit { index: usize, value: u32 },
    NonFiniteSelectionScore { index: usize, value: u32 },
    InvalidNormalization(u32),
    InvalidRoutedWeight { index: usize, weight: u32 },
    ShapeOverflow,
}

/// The message of an error; `shown` is how its fraction is shown, where it has one.
pub open spec fn routing_message(error: MoeRoutingError, shown: Seq<char>) -> Seq<char> {
    match error {
        MoeRoutingError::ZeroDimension(dimension) => "MoE dimension "@ + dimension@
            + " must be non-zero"@,
        MoeRoutingError::ExpertsPerTokenOutOfRange { experts_per_token, routed_expert_count } =>
            "MoE experts_per_token "@ + decimal(experts_per_token as nat)
            + " exceeds routed expert count "@ + decimal(routed_expert_count as nat),
        MoeRoutingError::UnevenExpertGroups { routed_expert_count, expert_group_count } =>
            "MoE routed expert count "@ + decimal(routed_expert_count as nat)
            + " is not divisible by "@ + decimal(expert_group_count as nat) + " groups"@,
        MoeRoutingError::SelectedGroupCountOutOfRange { selected, available } =>
            "MoE selected expert group count "@ + decimal(selected as nat)
            + " must be within 1..="@ + decimal(available as nat),
        MoeRoutingError::SelectedGroupsTooSmall { experts_per_token, selected_capacity } =>
            "MoE selected groups contain "@ + decimal(selected_capacity as nat)
            + " experts, fewer than top-k "@ + decimal(experts_per_token as nat),
        MoeRoutingError::InvalidScalingFactor(_) =>
            "MoE routed scaling factor must be finite and positive, got "@ + shown,
        MoeRoutingError::CorrectionBiasCountMismatch { expected, actual } =>
            "MoE correction bias has "@ + decimal(actual as nat) + " values, expected "@ + decimal(
            expected as nat,
        ),
        MoeRoutingError::LogitCountMismatch { expected, actual } => "MoE router produced "@
            + decimal(actual as nat) + " logits, expected "@ + decimal(expected as nat),
        MoeRoutingError::NonFiniteLogit { index, value } => "MoE router logit "@ + decimal(
            index as nat,
        ) + " is not finite: "@ + shown,
        MoeRoutingError::NonFiniteSelectionScore { index, value } =>
            "MoE router selection score "@ + decimal(index as nat) + " is not finite: "@ + shown,
        MoeRoutingError::InvalidNormalization(_) =>
            "MoE routed probability normalization is invalid: "@ + shown,
        MoeRoutingError::InvalidRoutedWeight { index, weight } => "MoE routed expert "@ + decimal(
            index as nat,
        ) + " has invalid output weight "@ + shown,
        MoeRoutingError::ShapeOverflow => "MoE routing shape overflowed"@,
    }
}

impl MoeRoutingError {
    /// The message of the error; `shown` is how its fraction is shown, where it has one.
    pub fn to_string(&self, shown: &str) -> (message: String)
        ensures
            message@ == routing_message(*self, shown@),
    {
        match self {
            MoeRoutingError::ZeroDimension(dimension) => cat3(
                "MoE dimension ",
                dimension,
                " must be non-zero",
            ),
            MoeRoutingError::ExpertsPerTokenOutOfRange { experts_per_token, routed_expert_count } =>
                cat4(
                "MoE experts_per_token ",
                decimal_usize(*experts_per_token).as_str(),
                " exceeds routed expert count ",
                decimal_usize(*routed_expert_count).as_str(),
            ),
            MoeRoutingError::UnevenExpertGroups { routed_expert_count, expert_group_count } => cat5(
                "MoE routed expert count ",
                decimal_usize(*routed_expert_count).as_str(),
                " is not divisible by ",
                decimal_usize(*expert_group_count).as_str(),
                " groups",
            ),
            MoeRoutingError::SelectedGroupCountOutOfRange { selected, available } => cat4(
                "MoE selected expert group count ",
                decimal_usize(*selected).as_str(),
                " must be within 1..=",
                decimal_usize(*available).as_str(),
            ),
            MoeRoutingError::SelectedGroupsTooSmall { experts_per_token, selected_capacity } => cat4(
                "MoE selected groups contain ",
                decimal_usize(*selected_capacity).as_str(),
                " experts, fewer than top-k ",
                decimal_usize(*experts_per_token).as_str(),
            ),
            MoeRoutingError::InvalidScalingFactor(_) => cat2(
                "MoE routed scaling factor must be finite and positive, got ",
                shown,
            ),
            MoeRoutingError::CorrectionBiasCountMismatch { expected, actual } => cat4(
                "MoE correction bias has ",
                decimal_usize(*actual).as_str(),
                " values, expected ",
                decimal_usize(*expected).as_str(),
            ),
            MoeRoutingError::LogitCountMismatch { expected, actual } => cat4(
                "MoE router produced ",
                decimal_usize(*actual).as_str(),
                " logits, expected ",
                decimal_usize(*expected).as_str(),
            ),
            MoeRoutingError::NonFiniteLogit { index, .. } => cat4(
                "MoE router logit ",
                decimal_usize(*index).as_str(),
                " is not finite: ",
                shown,
            ),
            MoeRoutingError::NonFiniteSelectionScore { index, .. } => cat4(
                "MoE router selection score ",
                decimal_usize(*index).as_str(),
                " is not finite: ",
                shown,
            ),
            MoeRoutingError::InvalidNormalization(_) => cat2(
                "MoE routed probability normalization is invalid: ",
                shown,
            ),
            MoeRoutingError::InvalidRoutedWeight { index, .. } => cat4(
                "MoE routed expert ",
                decimal_usize(*index).as_str(),
                " has invalid output weight ",
                shown,
            ),
            MoeRoutingError::ShapeOverflow => "MoE routing shape overflowed".to_owned(),
        }
    }
}

/// Whether a binary32 value is finite, from its bits.
pub open spec fn finite(bits: u32) -> bool {
    bits % 0x8000_0000 < 0x7f80_0000
}

/// Whether a binary32 value is finite and positive, from its bits.
pub open spec fn positive(bits: u32) -> bool {
    0 < bits < 0x7f80_0000
}

/// What is wrong with a mixture, if anything is.
pub open spec fn config_fault(config: MoeFeedForwardConfig, biases: Option<nat>) -> Option<
    MoeRoutingError,
> {
    let experts = config.routed_expert_count;
    let chosen = config.experts_per_token;
    let groups = config.expert_group_count;
    let selected = config.selected_expert_group_count;
    let capacity = (experts as int / groups as int) * selected;
    if experts == 0 {
        Some(MoeRoutingError::ZeroDimension("routed_expert_count"))
    } else if chosen == 0 {
        Some(MoeRoutingError::ZeroDimension("experts_per_token"))
    } else if chosen > experts {
        Some(
            MoeRoutingError::ExpertsPerTokenOutOfRange {
                experts_per_token: chosen,
                routed_expert_count: experts,
            },
        )
    } else if groups == 0 {
        Some(MoeRoutingError::ZeroDimension("expert_group_count"))
    } else if experts % groups != 0 {
        Some(
            MoeRoutingError::UnevenExpertGroups {
                routed_expert_count: experts,
                expert_group_count: groups,
            },
        )
    } else if selected == 0 || selected > groups {
        Some(MoeRoutingError::SelectedGroupCountOutOfRange { selected, available: groups })
    } else if chosen > capacity {
        Some(
            MoeRoutingError::SelectedGroupsTooSmall {
                experts_per_token: chosen,
                selected_capacity: capacity as usize,
            },
        )
    } else if config.expert_intermediate_size == 0 {
        Some(MoeRoutingError::ZeroDimension("expert_intermediate_size"))
    } else if !positive(config.routed_scaling_factor) {
        Some(MoeRoutingError::InvalidScalingFactor(config.routed_scaling_factor))
    } else if biases is Some && biases->0 != experts {
        Some(
            MoeRoutingError::CorrectionBiasCountMismatch {
                expected: experts,
                actual: biases->0 as usize,
            },
        )
    } else {
        None
    }
}

/// Gives tokens to the experts of a mixture.
#[derive(Clone, Debug)]
pub struct MoeRouter {
    config: MoeFeedForwardConfig,
    correction_bias: Option<Vec<u32>>,
}

/// Whether one score is chosen before another: it is higher, or as high and stands before it.
pub open spec fn better(keys: Seq<i32>, a: int, b: int) -> bool {
    keys[a] > keys[b] || (keys[a] == keys[b] && a < b)
}

/// Whether a place can still be picked.
pub open spec fn open_place(allowed: Seq<bool>, picks: Seq<usize>, i: int) -> bool {
    0 <= i < allowed.len() && allowed[i] && !picks.contains(i as usize)
}

/// Whether a place is the best of those that can still be picked.
pub open spec fn is_best(keys: Seq<i32>, allowed: Seq<bool>, picks: Seq<usize>, i: int) -> bool {
    open_place(allowed, picks, i) && forall|j: int| #[trigger]
        open_place(allowed, picks, j) ==> j == i || better(keys, i, j)
}

/// The `k` best of the allowed places, the best first; fewer where fewer are allowed.
pub open spec fn best_picks(keys: Seq<i32>, allowed: Seq<bool>, k: nat) -> Seq<usize>
    decreases k,
{
    if k == 0 {
        Seq::empty()
    } else {
        let picks = best_picks(keys, allowed, (k - 1) as nat);
        if exists|i: int| is_best(keys, allowed, picks, i) {
            picks.push((choose|i: int| is_best(keys, allowed, picks, i)) as usize)
        } else {
            picks
        }
    }
}

proof fn lemma_best_is_unique(
    keys: Seq<i32>,
    allowed: Seq<bool>,
    picks: Seq<usize>,
    a: int,
    b: int,
)
    requires
        is_best(keys, allowed, picks, a),
        is_best(keys, allowed, picks, b),
    ensures
        a == b,
{
    assert(open_place(allowed, picks, b));
    assert(open_place(allowed, picks, a));
}

/// The best of the allowed places that have not been picked.
fn best_place(keys: &Vec<i32>, allowed: &Vec<bool>, picks: &Vec<usize>) -> (best: Option<usize>)
    requires
        keys@.len() == allowed@.len(),
    ensures
        match best {
            Some(i) => is_best(keys@, allowed@, picks@, i as int),
            None => forall|i: int| !is_best(keys@, allowed@, picks@, i) && !open_place(
                allowed@,
                picks@,
                i,
            ),
        },
{
    let mut best: Option<usize> = None;
    let mut i: usize = 0;
    while i < keys.len()
        invariant
            i <= keys@.len(),
            keys@.len() == allowed@.len(),
            match best {
                Some(b) => b < i && open_place(allowed@, picks@, b as int) && forall|j: int|
                    0 <= j < i && #[trigger] open_place(allowed@, picks@, j) ==> j == b || better(
                        keys@,
                        b as int,
                        j,
                    ),
                None => forall|j: int| 0 <= j < i ==> !#[trigger] open_place(allowed@, picks@, j),
            },
        decreases keys@.len() - i,
    {
        if allowed[i] && !has_place(picks, i) {
            match best {
                Some(b) => {
                    if keys[i] > keys[b] {
                        best = Some(i);
                    }
                },
                None => {
                    best = Some(i);
                },
            }
        }
        i = i + 1;
    }
    best
}

fn has_place(picks: &Vec<usize>, place: usize) -> (found: bool)
    ensures
        found == picks@.contains(place),
{
    let mut i: usize = 0;
    while i < picks.len()
        invariant
            i <= picks@.len(),
            forall|j: int| 0 <= j < i ==> picks@[j] != place,
        decreases picks@.len() - i,
    {
        if picks[i] == place {
            return true;
        }
        i = i + 1;
    }
    false
}

/// The `k` best of the allowed places, the best first.
fn pick_best(keys: &Vec<i32>, allowed: &Vec<bool>, k: usize) -> (picks: Vec<usize>)
    requires
        keys@.len() == allowed@.len(),
    ensures
        picks@ == best_picks(keys@, allowed@, k as nat),
{
    let mut picks: Vec<usize> = Vec::new();
    let mut n: usize = 0;
    proof {
        assert(picks@ =~= Seq::empty());
    }
    while n < k
        invariant
            n <= k,
            keys@.len() == allowed@.len(),
            picks@ == best_picks(keys@, allowed@, n as nat),
        decreases k - n,
    {
        let ghost before = picks@;
        match best_place(keys, allowed, &picks) {
            Some(i) => {
                proof {
                    let chosen = choose|i: int| is_best(keys@, allowed@, before, i);
                    lemma_best_is_unique(keys@, allowed@, before, i as int, chosen);
                }
                picks.push(i);
            },
            None => {},
        }
        n = n + 1;
    }
    picks
}

proof fn lemma_some_best(keys: Seq<i32>, allowed: Seq<bool>, picks: Seq<usize>, i: int, n: int)
    requires
        open_place(allowed, picks, i),
        i < n <= allowed.len(),
    ensures
        exists|b: int| #[trigger] open_place(allowed, picks, b) && 0 <= b < n && forall|j: int|
            0 <= j < n && #[trigger] open_place(allowed, picks, j) ==> j == b || better(keys, b, j),
    decreases n,
{
    let last = n - 1;
    if exists|j: int| 0 <= j < last && #[trigger] open_place(allowed, picks, j) {
        let j = choose|j: int| 0 <= j < last && #[trigger] open_place(allowed, picks, j);
        lemma_some_best(keys, allowed, picks, j, last);
        let b = choose|b: int| #[trigger] open_place(allowed, picks, b) && 0 <= b < last && forall|
            j: int,
        |
            0 <= j < last && #[trigger] open_place(allowed, picks, j) ==> j == b || better(
                keys,
                b,
                j,
            );
        if open_place(allowed, picks, last) && keys[last] > keys[b] {
            assert forall|j: int| 0 <= j < n && #[trigger] open_place(allowed, picks, j) implies j
                == last || better(keys, last, j) by {
                if j != last && j != b {
                    assert(better(keys, b, j));
                }
            }
            assert(open_place(allowed, picks, last) && 0 <= last < n);
        } else {
            assert forall|j: int| 0 <= j < n && #[trigger] open_place(allowed, picks, j) implies j
                == b || better(keys, b, j) by {
            }
            assert(open_place(allowed, picks, b) && 0 <= b < n);
        }
    } else {
        assert(i == last);
        assert(open_place(allowed, picks, i) && 0 <= i < n);
    }
}

/// As long as an allowed place is left, another is picked.
proof fn lemma_another_pick(keys: Seq<i32>, allowed: Seq<bool>, k: nat, i: int)
    requires
        k > 0,
        open_place(allowed, best_picks(keys, allowed, (k - 1) as nat), i),
    ensures
        best_picks(keys, allowed, k).len() == best_picks(keys, allowed, (k - 1) as nat).len() + 1,
{
    let picks = best_picks(keys, allowed, (k - 1) as nat);
    lemma_some_best(keys, allowed, picks, i, allowed.len() as int);
    let b = choose|b: int| #[trigger] open_place(allowed, picks, b) && 0 <= b < allowed.len()
        && forall|j: int|
        0 <= j < allowed.len() && #[trigger] open_place(allowed, picks, j) ==> j == b || better(
            keys,
            b,
            j,
        );
    assert(is_best(keys, allowed, picks, b));
}

/// The places that are picked are allowed and different, each is better than the next, and all of them
/// are better than any allowed place that is left.
pub proof fn picks_are_the_best(keys: Seq<i32>, allowed: Seq<bool>, k: nat)
    requires
        allowed.len() <= usize::MAX + 1,
    ensures
        ({
            let picks = best_picks(keys, allowed, k);
            &&& picks.len() <= k
            &&& picks.no_duplicates()
            &&& forall|i: int|
                0 <= i < picks.len() ==> (#[trigger] picks[i]) < allowed.len()
                    && allowed[picks[i] as int]
            &&& forall|i: int, j: int|
                0 <= i < j < picks.len() ==> better(
                    keys,
                    #[trigger] picks[i] as int,
                    #[trigger] picks[j] as int,
                )
            &&& forall|i: int, j: int|
                0 <= i < picks.len() && #[trigger] open_place(allowed, picks, j) ==> better(
                    keys,
                    (#[trigger] picks[i]) as int,
                    j,
                )
        }),
    decreases k,
{
    if k > 0 {
        picks_are_the_best(keys, allowed, (k - 1) as nat);
        let before = best_picks(keys, allowed, (k - 1) as nat);
        let picks = best_picks(keys, allowed, k);
        if exists|i: int| is_best(keys, allowed, before, i) {
            let best = choose|i: int| is_best(keys, allowed, before, i);
            assert(open_place(allowed, before, best));
            assert(picks == before.push(best as usize));
            assert forall|i: int| 0 <= i < picks.len() implies (#[trigger] picks[i])
                < allowed.len() && allowed[picks[i] as int] by {
                if i < before.len() {
                    assert(picks[i] == before[i]);
                }
            }
            assert forall|i: int, j: int| 0 <= i < j < picks.len() implies better(
                keys,
                #[trigger] picks[i] as int,
                #[trigger] picks[j] as int,
            ) && picks[i] != picks[j] by {
                assert(picks[i] == before[i]);
                if j < before.len() {
                    assert(picks[j] == before[j]);
                } else {
                    assert(before.contains(before[i]));
                }
            }
            assert forall|i: int, j: int|
                0 <= i < picks.len() && #[trigger] open_place(allowed, picks, j) implies better(
                keys,
                (#[trigger] picks[i]) as int,
                j,
            ) by {
                assert(open_place(allowed, before, j)) by {
                    if before.contains(j as usize) {
                        let n = choose|n: int| 0 <= n < before.len() && before[n] == j as usize;
                        assert(picks[n] == j as usize);
                    }
                }
                if i < before.len() {
                    assert(picks[i] == before[i]);
                } else {
                    assert(picks[before.len() as int] == best as usize);
                    assert(picks.contains(best as usize));
                }
            }
        }
    }
}

impl MoeRouter {
    /// The mixture.
    pub closed spec fn mixture(self) -> MoeFeedForwardConfig {
        self.config
    }

    /// The correction of the scores by which experts are chosen.
    pub closed spec fn biases(self) -> Option<Seq<u32>> {
        match self.correction_bias {
            Some(bias) => Some(bias@),
            None => None,
        }
    }

    /// Nothing is wrong with the mixture.
    pub open spec fn wf(self) -> bool {
        config_fault(
            self.mixture(),
            match self.biases() {
                Some(bias) => Some(bias.len()),
                None => None,
            },
        ) is None
    }

    /// The number of experts of a group.
    pub open spec fn group_size(self) -> nat {
        (self.mixture().routed_expert_count as int / self.mixture().expert_group_count as int) as nat
    }

    /// A router for a mixture.
    pub fn new(config: MoeFeedForwardConfig, correction_bias: Option<Vec<u32>>) -> (router: Result<
        MoeRouter,
        MoeRoutingError,
    >)
        ensures
            ({
                let biases = match correction_bias {
                    Some(bias) => Some(bias@.len()),
                    None => None,
                };
                match router {
                    Ok(r) => r.wf() && config_fault(config, biases) is None && r.mixture()
                        == config && r.biases() == (match correction_bias {
                        Some(bias) => Some(bias@),
                        None => None,
                    }),
                    Err(e) => config_fault(config, biases) == Some(e),
                }
            }),
    {
        if config.routed_expert_count == 0 {
            return Err(MoeRoutingError::ZeroDimension("routed_expert_count"));
        }
        if config.experts_per_token == 0 {
            return Err(MoeRoutingError::ZeroDimension("experts_per_token"));
        }
        if config.experts_per_token > config.routed_expert_count {
            return Err(
                MoeRoutingError::ExpertsPerTokenOutOfRange {
                    experts_per_token: config.experts_per_token,
                    routed_expert_count: config.routed_expert_count,
                },
            );
        }
        if config.expert_group_count == 0 {
            return Err(MoeRoutingError::ZeroDimension("expert_group_count"));
        }
        if config.routed_expert_count % config.expert_group_count != 0 {
            return Err(
                MoeRoutingError::UnevenExpertGroups {
                    routed_expert_count: config.routed_expert_count,
                    expert_group_count: config.expert_group_count,
                },
            );
        }
        if config.selected_expert_group_count == 0 || config.selected_expert_group_count
            > config.expert_group_count {
            return Err(
                MoeRoutingError::SelectedGroupCountOutOfRange {
                    selected: config.selected_expert_group_count,
                    available: config.expert_group_count,
                },
            );
        }
        let experts_per_group: usize = config.routed_expert_count / config.expert_group_count;
        proof {
            let p = experts_per_group as int;
            let g = config.expert_group_count as int;
            let s = config.selected_expert_group_count as int;
            let n = config.routed_expert_count as int;
            assert(p * s <= n) by (nonlinear_arith)
                requires
                    p == n / g,
                    0 < s <= g,
                    n >= 0,
            ;
        }
        let selected_capacity: usize = match experts_per_group.checked_mul(
            config.selected_expert_group_count,
        ) {
            Some(capacity) => capacity,
            None => {
                return Err(MoeRoutingError::ShapeOverflow);
            },
        };
        if config.experts_per_token > selected_capacity {
            return Err(
                MoeRoutingError::SelectedGroupsTooSmall {
                    experts_per_token: config.experts_per_token,
                    selected_capacity,
                },
            );
        }
        if config.expert_intermediate_size == 0 {
            return Err(MoeRoutingError::ZeroDimension("expert_intermediate_size"));
        }
        if config.routed_scaling_factor == 0 || config.routed_scaling_factor >= 0x7f80_0000 {
            return Err(MoeRoutingError::InvalidScalingFactor(config.routed_scaling_factor));
        }
        if let Some(bias) = &correction_bias {
            if bias.len() != config.routed_expert_count {
                return Err(
                    MoeRoutingError::CorrectionBiasCountMismatch {
                        expected: config.routed_expert_count,
                        actual: bias.len(),
                    },
                );
            }
        }
        Ok(MoeRouter { config, correction_bias })
    }

    /// The mixture.
    pub fn config(&self) -> (config: &MoeFeedForwardConfig)
        ensures
            *config == self.mixture(),
    {
        &self.config
    }

    /// The correction of the scores by which experts are chosen.
    pub fn correction_bias(&self) -> (bias: Option<&Vec<u32>>)
        ensures
            match bias {
                Some(list) => self.biases() == Some(list@),
                None => self.biases() is None,
            },
    {
        self.correction_bias.as_ref()
    }

    /// Whether the logits of a token can be used: there are as many as experts, and all are finite.
    pub fn check_logits(&self, logits: &Vec<u32>) -> (valid: Result<(), MoeRoutingError>)
        ensures
            match valid {
                Ok(_) => logits@.len() == self.mixture().routed_expert_count && forall|i: int|
                    0 <= i < logits@.len() ==> finite(#[trigger] logits@[i]),
                Err(e) => if logits@.len() != self.mixture().routed_expert_count {
                    e == (MoeRoutingError::LogitCountMismatch {
                        expected: self.mixture().routed_expert_count,
                        actual: logits@.len() as usize,
                    })
                } else {
                    exists|i: int|
                        is_first_infinite(logits@, i) && e == (MoeRoutingError::NonFiniteLogit {
                            index: i as usize,
                            value: logits@[i],
                        })
                },
            },
    {
        if logits.len() != self.config.routed_expert_count {
            return Err(
                MoeRoutingError::LogitCountMismatch {
                    expected: self.config.routed_expert_count,
                    actual: logits.len(),
                },
            );
        }
        match first_infinite(logits) {
            Some(i) => {
                proof {
                    assert(is_first_infinite(logits@, i as int));
                }
                Err(MoeRoutingError::NonFiniteLogit { index: i, value: logits[i] })
            },
            None => Ok(()),
        }
    }

    /// Whether the scores by which experts are chosen can be used: all are finite.
    pub fn check_scores(&self, scores: &Vec<u32>) -> (valid: Result<(), MoeRoutingError>)
        ensures
            match valid {
                Ok(_) => forall|i: int| 0 <= i < scores@.len() ==> finite(#[trigger] scores@[i]),
                Err(e) => exists|i: int|
                    is_first_infinite(scores@, i) && e == (
                    MoeRoutingError::NonFiniteSelectionScore {
                        index: i as usize,
                        value: scores@[i],
                    }),
            },
    {
        match first_infinite(scores) {
            Some(i) => {
                proof {
                    assert(is_first_infinite(scores@, i as int));
                }
                Err(MoeRoutingError::NonFiniteSelectionScore { index: i, value: scores[i] })
            },
            None => Ok(()),
        }
    }

    /// The two best experts of a group, the better first; one where the group has but one.
    pub fn group_leaders(&self, scores: &Vec<u32>, group: usize) -> (leaders: Vec<usize>)
        requires
            self.wf(),
            scores@.len() == self.mixture().routed_expert_count,
            group < self.mixture().expert_group_count,
        ensures
            leaders@ == best_picks(score_keys(scores@), in_group(*self, group as nat), 2),
    {
        let experts_per_group: usize = self.config.routed_expert_count
            / self.config.expert_group_count;
        let keys = keys_of(scores);
        let mut allowed: Vec<bool> = Vec::new();
        let mut i: usize = 0;
        proof {
            lemma_group_size(*self);
        }
        while i < self.config.routed_expert_count
            invariant
                i <= self.config.routed_expert_count,
                experts_per_group > 0,
                experts_per_group == self.group_size(),
                allowed@.len() == i,
                forall|j: int|
                    0 <= j < i ==> #[trigger] allowed@[j] == (j / experts_per_group as int
                        == group),
            decreases self.config.routed_expert_count - i,
        {
            allowed.push(i / experts_per_group == group);
            i = i + 1;
        }
        proof {
            assert(allowed@ =~= in_group(*self, group as nat));
        }
        pick_best(&keys, &allowed, 2)
    }

    /// The groups of which experts are chosen, by the scores of the groups; the best first.
    pub fn select_groups(&self, group_scores: &Vec<u32>) -> (groups: Vec<usize>)
        requires
            self.wf(),
            group_scores@.len() == self.mixture().expert_group_count,
        ensures
            groups@ == selected_groups(*self, group_scores@),
    {
        let keys = keys_of(group_scores);
        let mut allowed: Vec<bool> = Vec::new();
        let mut i: usize = 0;
        while i < self.config.expert_group_count
            invariant
                i <= self.config.expert_group_count,
                allowed@.len() == i,
                forall|j: int| 0 <= j < i ==> #[trigger] allowed@[j],
            decreases self.config.expert_group_count - i,
        {
            allowed.push(true);
            i = i + 1;
        }
        proof {
            assert(allowed@ =~= all_of(self.mixture().expert_group_count as nat));
        }
        pick_best(&keys, &allowed, self.config.selected_expert_group_count)
    }

    /// The experts that a token is given to, by the scores of the experts and of their groups; the
    /// best first.
    pub fn select_experts(&self, scores: &Vec<u32>, group_scores: &Vec<u32>) -> (experts: Vec<usize>)
        requires
            self.wf(),
            scores@.len() == self.mixture().routed_expert_count,
            group_scores@.len() == self.mixture().expert_group_count,
        ensures
            experts@ == selected_experts(*self, scores@, group_scores@),
    {
        let groups = self.select_groups(group_scores);
        let experts_per_group: usize = self.config.routed_expert_count
            / self.config.expert_group_count;
        let keys = keys_of(scores);
        let mut allowed: Vec<bool> = Vec::new();
        let mut i: usize = 0;
        proof {
            lemma_group_size(*self);
        }
        while i < self.config.routed_expert_count
            invariant
                i <= self.config.routed_expert_count,
                experts_per_group > 0,
                experts_per_group == self.group_size(),
                allowed@.len() == i,
                forall|j: int|
                    0 <= j < i ==> #[trigger] allowed@[j] == groups@.contains(
                        (j / experts_per_group as int) as usize,
                    ),
            decreases self.config.routed_expert_count - i,
        {
            allowed.push(has_place(&groups, i / experts_per_group));
            i = i + 1;
        }
        proof {
            assert(allowed@ =~= in_groups(*self, groups@));
        }
        pick_best(&keys, &allowed, self.config.experts_per_token)
    }
}

/// Whether the value at a place is the first that is not finite.
pub open spec fn is_first_infinite(values: Seq<u32>, i: int) -> bool {
    0 <= i < values.len() && !finite(values[i]) && forall|j: int|
        0 <= j < i ==> finite(#[trigger] values[j])
}

fn first_infinite(values: &Vec<u32>) -> (place: Option<usize>)
    ensures
        match place {
            Some(i) => is_first_infinite(values@, i as int),
            None => forall|i: int| 0 <= i < values@.len() ==> finite(#[trigger] values@[i]),
        },
{
    let mut i: usize = 0;
    while i < values.len()
        invariant
            i <= values@.len(),
            forall|j: int| 0 <= j < i ==> finite(#[trigger] values@[j]),
        decreases values@.len() - i,
    {
        if values[i] % 0x8000_0000 >= 0x7f80_0000 {
            return Some(i);
        }
        i = i + 1;
    }
    None
}

/// The places of scores in the order of such values.
pub open spec fn score_keys(scores: Seq<u32>) -> Seq<i32> {
    scores.map_values(|bits: u32| total_order(bits) as i32)
}

fn keys_of(scores: &Vec<u32>) -> (keys: Vec<i32>)
    ensures
        keys@ == score_keys(scores@),
        keys@.len() == scores@.len(),
{
    let mut keys: Vec<i32> = Vec::new();
    let mut i: usize = 0;
    while i < scores.len()
        invariant
            i <= scores@.len(),
            keys@.len() == i,
            forall|j: int| 0 <= j < i ==> #[trigger] keys@[j] == total_order(scores@[j]),
        decreases scores@.len() - i,
    {
        keys.push(total_order_key(scores[i]));
        i = i + 1;
    }
    proof {
        assert(keys@ =~= score_keys(scores@));
    }
    keys
}

/// All of `n` places.
pub open spec fn all_of(n: nat) -> Seq<bool> {
    Seq::new(n, |i: int| true)
}

/// Which experts are of a group.
pub open spec fn in_group(router: MoeRouter, group: nat) -> Seq<bool> {
    Seq::new(
        router.mixture().routed_expert_count as nat,
        |i: int| i / router.group_size() as int == group,
    )
}

/// Which experts are of one of several groups.
pub open spec fn in_groups(router: MoeRouter, groups: Seq<usize>) -> Seq<bool> {
    Seq::new(
        router.mixture().routed_expert_count as nat,
        |i: int| groups.contains((i / router.group_size() as int) as usize),
    )
}

/// The groups of which experts are chosen.
pub open spec fn selected_groups(router: MoeRouter, group_scores: Seq<u32>) -> Seq<usize> {
    best_picks(
        score_keys(group_scores),
        all_of(router.mixture().expert_group_count as nat),
        router.mixture().selected_expert_group_count as nat,
    )
}

/// The experts that a token is given to.
pub open spec fn selected_experts(
    router: MoeRouter,
    scores: Seq<u32>,
    group_scores: Seq<u32>,
) -> Seq<usize> {
    best_picks(
        score_keys(scores),
        in_groups(router, selected_groups(router, group_scores)),
        router.mixture().experts_per_token as nat,
    )
}

proof fn lemma_group_size(router: MoeRouter)
    requires
        router.wf(),
    ensures
        router.group_size() > 0,
        router.group_size() * router.mixture().expert_group_count
            == router.mixture().routed_expert_count,
{
    let n = router.mixture().routed_expert_count as int;
    let g = router.mixture().expert_group_count as int;
    assert(n / g > 0 && (n / g) * g == n) by (nonlinear_arith)
        requires
            n > 0,
            g > 0,
            n % g == 0,
    ;
}

/// As many places are picked as are asked for, where so many different ones are allowed.
proof fn lemma_enough_picks(keys: Seq<i32>, allowed: Seq<bool>, places: Seq<usize>, k: nat)
    requires
        allowed.len() <= usize::MAX + 1,
        places.no_duplicates(),
        forall|i: int|
            0 <= i < places.len() ==> (#[trigger] places[i]) < allowed.len()
                && allowed[places[i] as int],
        k <= places.len(),
    ensures
        best_picks(keys, allowed, k).len() == k,
    decreases k,
{
    if k > 0 {
        lemma_enough_picks(keys, allowed, places, (k - 1) as nat);
        let picks = best_picks(keys, allowed, (k - 1) as nat);
        if forall|i: int| 0 <= i < places.len() ==> picks.contains(#[trigger] places[i]) {
            places.unique_seq_to_set();
            picks.lemma_cardinality_of_set();
            assert(places.to_set().subset_of(picks.to_set())) by {
                assert forall|p: usize| places.to_set().contains(p) implies picks.to_set().contains(
                    p,
                ) by {
                    let i = choose|i: int| 0 <= i < places.len() && places[i] == p;
                    assert(picks.contains(places[i]));
                }
            }
            vstd::set_lib::lemma_len_subset(places.to_set(), picks.to_set());
        } else {
            let i = choose|i: int| 0 <= i < places.len() && !picks.contains(#[trigger] places[i]);
            assert(open_place(allowed, picks, places[i] as int));
            lemma_another_pick(keys, allowed, k, places[i] as int);
        }
    }
}

/// A token is given to as many different experts as the mixture asks for, all of them of the chosen
/// groups, of which there are as many as the mixture asks for.
pub proof fn tokens_get_their_experts(router: MoeRouter, scores: Seq<u32>, group_scores: Seq<u32>)
    requires
        router.wf(),
        scores.len() == router.mixture().routed_expert_count,
        group_scores.len() == router.mixture().expert_group_count,
    ensures
        ({
            let groups = selected_groups(router, group_scores);
            let experts = selected_experts(router, scores, group_scores);
            &&& groups.len() == router.mixture().selected_expert_group_count
            &&& experts.len() == router.mixture().experts_per_token
            &&& experts.no_duplicates()
            &&& forall|i: int|
                0 <= i < experts.len() ==> (#[trigger] experts[i]) < scores.len()
                    && groups.contains((experts[i] as int / router.group_size() as int) as usize)
        }),
{
    let g = router.mixture().expert_group_count as nat;
    let s = router.mixture().selected_expert_group_count as nat;
    let p = router.group_size();
    let n = router.mixture().routed_expert_count as nat;
    lemma_group_size(router);
    let group_keys = score_keys(group_scores);
    let every = Seq::new(g, |i: int| i as usize);
    assert(every.no_duplicates());
    lemma_enough_picks(group_keys, all_of(g), every, s);
    picks_are_the_best(group_keys, all_of(g), s);
    let groups = selected_groups(router, group_scores);
    let allowed = in_groups(router, groups);
    let places = Seq::new(s * p, |i: int| (groups[i / p as int] * p + i % p as int) as usize);
    assert forall|i: int| 0 <= i < places.len() implies (#[trigger] places[i]) < n
        && allowed[places[i] as int] && places[i] as int / p as int == groups[i / p as int]
        && places[i] as int % p as int == i % p as int && 0 <= i / p as int && i / (p as int)
        < s by {
        lemma_place(groups, s, p, g, n, i);
    }
    assert(places.no_duplicates()) by {
        assert forall|i: int, j: int| 0 <= i < j < places.len() implies places[i] != places[j] by {
            if places[i] == places[j] {
                assert(groups[i / p as int] == groups[j / p as int]);
                assert(i / p as int == j / p as int);
                assert(i == j) by (nonlinear_arith)
                    requires
                        i / p as int == j / p as int,
                        i % p as int == j % p as int,
                        p > 0,
                ;
            }
        }
    }
    assert(s * p == p * s) by (nonlinear_arith);
    lemma_enough_picks(
        score_keys(scores),
        allowed,
        places,
        router.mixture().experts_per_token as nat,
    );
    picks_are_the_best(score_keys(scores), allowed, router.mixture().experts_per_token as nat);
}

proof fn lemma_place(groups: Seq<usize>, s: nat, p: nat, g: nat, n: nat, i: int)
    requires
        p > 0,
        groups.len() == s,
        p * g == n,
        n <= usize::MAX,
        forall|a: int| 0 <= a < groups.len() ==> (#[trigger] groups[a]) < g,
        0 <= i < s * p,
    ensures
        0 <= i / p as int,
        i / (p as int) < s,
        0 <= groups[i / p as int] * p + i % (p as int) < n,
        (groups[i / p as int] * p + i % p as int) / p as int == groups[i / p as int],
        (groups[i / p as int] * p + i % p as int) % p as int == i % p as int,
        groups.contains(groups[i / p as int]),
{
    let a = i / p as int;
    let r = i % p as int;
    assert(0 <= a < s && 0 <= r < p) by (nonlinear_arith)
        requires
            a == i / p as int,
            r == i % p as int,
            0 <= i < s * p,
            p > 0,
    ;
    let q = groups[a] as int;
    assert(q < g);
    assert(0 <= q * p + r < p * g && (q * p + r) / p as int == q && (q * p + r) % p as int == r)
        by (nonlinear_arith)
        requires
            0 <= q < g,
            0 <= r < p,
            p > 0,
    ;
}

/// Whether the sum by which weights are divided can be used: it is finite and positive.
pub fn check_normalizer(sum: u32) -> (valid: Result<(), MoeRoutingError>)
    ensures
        match valid {
            Ok(_) => positive(sum),
            Err(e) => !positive(sum) && e == MoeRoutingError::InvalidNormalization(sum),
        },
{
    if sum == 0 || sum >= 0x7f80_0000 {
        return Err(MoeRoutingError::InvalidNormalization(sum));
    }
    Ok(())
}

/// Whether a binary32 value is less than zero, from its bits.
pub open spec fn negative(bits: u32) -> bool {
    bits > 0x8000_0000 && bits <= 0xff80_0000
}

/// The experts with the weights of their answers; a weight must be finite and not negative.
pub fn weigh_experts(experts: &Vec<usize>, weights: &Vec<u32>) -> (routed: Result<
    Vec<RoutedExpert>,
    MoeRoutingError,
>)
    requires
        experts@.len() == weights@.len(),
    ensures
        match routed {
            Ok(list) => list@.len() == experts@.len() && forall|i: int|
                0 <= i < list@.len() ==> finite(weights@[i]) && !negative(weights@[i])
                    && #[trigger] list@[i] == (RoutedExpert {
                    index: experts@[i],
                    weight: weights@[i],
                }),
            Err(e) => exists|i: int|
                #![trigger weights@[i]]
                0 <= i < weights@.len() && (!finite(weights@[i]) || negative(weights@[i])) && e == (
                MoeRoutingError::InvalidRoutedWeight { index: experts@[i], weight: weights@[i] })
                    && forall|j: int|
                    0 <= j < i ==> finite(#[trigger] weights@[j]) && !negative(weights@[j]),
        },
{
    let mut routed: Vec<RoutedExpert> = Vec::new();
    let mut i: usize = 0;
    while i < experts.len()
        invariant
            i <= experts@.len(),
            experts@.len() == weights@.len(),
            routed@.len() == i,
            forall|j: int|
                0 <= j < i ==> finite(#[trigger] weights@[j]) && !negative(weights@[j]),
            forall|j: int|
                0 <= j < i ==> #[trigger] routed@[j] == (RoutedExpert {
                    index: experts@[j],
                    weight: weights@[j],
                }),
        decreases experts@.len() - i,
    {
        let weight: u32 = weights[i];
        if weight % 0x8000_0000 >= 0x7f80_0000 || (weight > 0x8000_0000 && weight <= 0xff80_0000) {
            return Err(MoeRoutingError::InvalidRoutedWeight { index: experts[i], weight });
        }
        routed.push(RoutedExpert { index: experts[i], weight });
        i = i + 1;
    }
    Ok(routed)
}

} // verus!
