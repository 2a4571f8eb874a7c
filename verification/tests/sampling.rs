use sglang_srt::model_forward::{argmax_token, total_order_key, ModelForwardError};
use sglang_srt::sampling::{
    bounded_unit, candidates, check_total, has_penalties, is_greedy, is_less, keep_candidates,
    pick_token, rank_tokens, token_counts, SamplingFractions,
};

fn bits(values: &[f32]) -> Vec<u32> {
    values.iter().map(|value| value.to_bits()).collect()
}

fn nothing() -> SamplingFractions {
    SamplingFractions {
        temperature: None,
        top_p: None,
        top_k: None,
        min_p: None,
        frequency_penalty: None,
        presence_penalty: None,
        repetition_penalty: None,
    }
}

fn some(value: f32) -> Option<u32> {
    Some(value.to_bits())
}

#[test]
fn greedy_where_nothing_else_is_asked_for() {
    assert!(is_greedy(&nothing()));
    let warm = SamplingFractions {
        temperature: some(0.7),
        ..nothing()
    };
    assert!(!is_greedy(&warm));
    for temperature in [0.0, -1.0, f32::EPSILON] {
        assert!(is_greedy(&SamplingFractions {
            temperature: some(temperature),
            ..nothing()
        }));
    }
    assert!(is_greedy(&SamplingFractions {
        top_k: Some(1),
        ..warm
    }));
    assert!(!is_greedy(&SamplingFractions {
        temperature: some(f32::NAN),
        ..nothing()
    }));
}

#[test]
fn penalties_count_unless_they_change_nothing() {
    assert!(!has_penalties(&nothing()));
    assert!(!has_penalties(&SamplingFractions {
        frequency_penalty: some(-0.0),
        presence_penalty: some(0.0),
        repetition_penalty: some(1.0),
        ..nothing()
    }));
    assert!(has_penalties(&SamplingFractions {
        repetition_penalty: some(1.1),
        ..nothing()
    }));
}

#[test]
fn tokens_are_counted_over_both_lists() {
    let mut counts = token_counts(&vec![5, 7, 5], &vec![7, 9]);
    counts.sort();
    assert_eq!(counts, vec![(5, 2), (7, 2), (9, 1)]);
    assert!(token_counts(&vec![], &vec![]).is_empty());
}

#[test]
fn rankings_put_the_greatest_first_and_keep_equals_in_order() {
    assert_eq!(rank_tokens(&vec![3, 9, 3, -1, 9]), vec![1, 4, 0, 2, 3]);
    assert_eq!(rank_tokens(&vec![]), Vec::<usize>::new());
    let keys: Vec<i32> = bits(&[0.5, -0.5, f32::MAX, 0.0])
        .into_iter()
        .map(total_order_key)
        .collect();
    assert_eq!(rank_tokens(&keys), vec![2, 0, 3, 1]);
}

#[test]
fn the_last_of_equal_best_tokens_is_chosen_greedily() {
    assert_eq!(argmax_token(&vec![1, 4, 4, 0]), Ok(2));
    assert_eq!(argmax_token(&vec![]), Err(ModelForwardError::EmptyVocabulary));
}

#[test]
fn candidates_are_the_most_probable() {
    assert_eq!(
        candidates(&bits(&[0.1, 0.6, 0.3]), Some(2), 0),
        Ok(vec![1, 2])
    );
    assert_eq!(
        candidates(&bits(&[0.1, 0.6, 0.3]), Some(-1), 0),
        Ok(vec![1, 2, 0])
    );
    assert_eq!(
        candidates(&bits(&[0.1, f32::NAN]), None, 4),
        Err(ModelForwardError::InvalidProbabilityDistribution { request_index: 4 })
    );
    assert_eq!(candidates(&vec![], None, 4), Err(ModelForwardError::EmptyVocabulary));
}

#[test]
fn candidates_are_kept_up_to_the_share_that_is_asked_for() {
    let probabilities = bits(&[1.0, 0.5, 0.25]);
    let sums_before = bits(&[0.0, 0.57, 0.86]);
    assert_eq!(
        keep_candidates(&probabilities, &sums_before, 0.8f32.to_bits(), 0.0f32.to_bits()),
        vec![0, 1]
    );
    assert_eq!(
        keep_candidates(&probabilities, &sums_before, 1.0f32.to_bits(), 0.5f32.to_bits()),
        vec![0, 1]
    );
    assert!(check_total(1.0f32.to_bits(), 0).is_ok());
    assert!(check_total(f32::INFINITY.to_bits(), 0).is_err());
}

#[test]
fn the_first_sum_above_the_target_decides() {
    let tokens = vec![8, 3, 5];
    let sums = bits(&[0.5, 0.9, 1.0]);
    assert_eq!(pick_token(&tokens, &sums, 0.0f32.to_bits(), 0), Ok(8));
    assert_eq!(pick_token(&tokens, &sums, 0.5f32.to_bits(), 0), Ok(3));
    assert_eq!(pick_token(&tokens, &sums, 2.0f32.to_bits(), 0), Ok(5));
    assert_eq!(
        pick_token(&vec![], &vec![], 0, 6),
        Err(ModelForwardError::InvalidProbabilityDistribution { request_index: 6 })
    );
}

#[test]
fn random_numbers_stay_below_one() {
    assert_eq!(bounded_unit(f32::NAN.to_bits()), 0);
    assert_eq!(bounded_unit(1.5f32.to_bits()), 0x3f7f_ffff);
    assert_eq!(bounded_unit((-0.5f32).to_bits()), 0);
    assert_eq!(bounded_unit(0.25f32.to_bits()), 0.25f32.to_bits());
}

#[test]
fn comparison_by_bits_is_that_of_the_values() {
    let values = [-1.5f32, -0.0, 0.0, 1e-40, 0.3, f32::INFINITY, f32::NEG_INFINITY, f32::NAN];
    for a in values {
        for b in values {
            assert_eq!(is_less(a.to_bits(), b.to_bits()), a < b);
        }
    }
}
