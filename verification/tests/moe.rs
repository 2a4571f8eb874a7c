use sglang_srt::decoder_plans::{MoeFeedForwardConfig, RouterActivation};
use sglang_srt::moe::{check_normalizer, weigh_experts, MoeRouter, MoeRoutingError, RoutedExpert};

fn bits(values: &[f32]) -> Vec<u32> {
    values.iter().map(|value| value.to_bits()).collect()
}

fn test_config() -> MoeFeedForwardConfig {
    MoeFeedForwardConfig {
        routed_expert_count: 4,
        experts_per_token: 1,
        expert_group_count: 2,
        selected_expert_group_count: 1,
        shared_expert_count: 1,
        expert_intermediate_size: 8,
        renormalize: true,
        router_activation: RouterActivation::Sigmoid,
        routed_scaling_factor: 2.0f32.to_bits(),
    }
}

// What the caller computes of the scores: the sum of the leaders of each group.
fn group_scores(router: &MoeRouter, scores: &[f32]) -> Vec<u32> {
    let all = bits(scores);
    (0..router.config().expert_group_count)
        .map(|group| {
            router
                .group_leaders(&all, group)
                .into_iter()
                .map(|expert| scores[expert])
                .sum::<f32>()
                .to_bits()
        })
        .collect()
}

fn route(router: &MoeRouter, probabilities: &[f32]) -> Result<Vec<RoutedExpert>, MoeRoutingError> {
    let scores: Vec<f32> = probabilities
        .iter()
        .enumerate()
        .map(|(expert, probability)| {
            probability
                + router
                    .correction_bias()
                    .map_or(0.0, |bias| f32::from_bits(bias[expert]))
        })
        .collect();
    router.check_scores(&bits(&scores))?;
    let selected = router.select_experts(&bits(&scores), &group_scores(router, &scores));
    let normalizer = if router.config().renormalize {
        let sum = selected.iter().map(|expert| probabilities[*expert]).sum::<f32>();
        check_normalizer(sum.to_bits())?;
        sum
    } else {
        1.0
    };
    let weights: Vec<u32> = selected
        .iter()
        .map(|expert| {
            (probabilities[*expert] / normalizer
                * f32::from_bits(router.config().routed_scaling_factor))
            .to_bits()
        })
        .collect();
    weigh_experts(&selected, &weights)
}

#[test]
fn grouped_routing_uses_correction_bias_only_for_selection() {
    let router = MoeRouter::new(test_config(), Some(bits(&[0.0, 0.0, 1.0, 0.0])))
        .expect("valid router");
    router.check_logits(&bits(&[0.0; 4])).expect("finite logits");
    let routed = route(&router, &[0.5; 4]).expect("routing should succeed");

    assert_eq!(
        routed,
        vec![RoutedExpert {
            index: 2,
            weight: 2.0f32.to_bits()
        }]
    );
}

#[test]
fn softmax_routing_preserves_unrenormalized_probabilities() {
    let router = MoeRouter::new(
        MoeFeedForwardConfig {
            experts_per_token: 2,
            expert_group_count: 1,
            selected_expert_group_count: 1,
            renormalize: false,
            router_activation: RouterActivation::Softmax,
            routed_scaling_factor: 1.0f32.to_bits(),
            ..test_config()
        },
        None,
    )
    .expect("valid router");
    let logits = [2.0f32, 1.0, 0.0, -1.0];
    router.check_logits(&bits(&logits)).expect("finite logits");
    let sum: f32 = logits.iter().map(|logit| (logit - 2.0).exp()).sum();
    let probabilities: Vec<f32> = logits.iter().map(|logit| (logit - 2.0).exp() / sum).collect();
    let routed = route(&router, &probabilities).expect("routing should succeed");

    assert_eq!(routed.len(), 2);
    assert_eq!(routed[0].index, 0);
    assert_eq!(routed[1].index, 1);
    assert!(
        routed
            .iter()
            .map(|expert| f32::from_bits(expert.weight))
            .sum::<f32>()
            < 1.0
    );
}

#[test]
fn router_rejects_group_capacity_smaller_than_top_k() {
    assert!(matches!(
        MoeRouter::new(
            MoeFeedForwardConfig {
                experts_per_token: 3,
                ..test_config()
            },
            None,
        ),
        Err(MoeRoutingError::SelectedGroupsTooSmall {
            experts_per_token: 3,
            selected_capacity: 2,
        })
    ));
}

#[test]
fn router_rejects_non_finite_logits() {
    let router = MoeRouter::new(test_config(), None).expect("valid router");
    assert!(matches!(
        router.check_logits(&bits(&[0.0, f32::NAN, 0.0, 0.0])),
        Err(MoeRoutingError::NonFiniteLogit { index: 1, .. })
    ));
}

#[test]
fn equal_scores_go_to_the_first_experts_of_the_first_groups() {
    let router = MoeRouter::new(
        MoeFeedForwardConfig {
            routed_expert_count: 6,
            experts_per_token: 3,
            expert_group_count: 3,
            selected_expert_group_count: 2,
            ..test_config()
        },
        None,
    )
    .expect("valid router");
    assert_eq!(router.select_groups(&bits(&[1.0, 1.0, 1.0])), vec![0, 1]);
    assert_eq!(
        router.select_experts(&bits(&[0.5; 6]), &bits(&[1.0, 1.0, 1.0])),
        vec![0, 1, 2]
    );
    // The best experts of the chosen groups, the best first.
    assert_eq!(
        router.select_experts(
            &bits(&[0.1, 0.2, 9.0, 9.0, 0.4, 0.3]),
            &bits(&[0.3, -1.0, 0.7])
        ),
        vec![4, 5, 1]
    );
    assert_eq!(router.group_leaders(&bits(&[0.1, 0.2, 9.0, 8.0, 0.4, 0.3]), 0), vec![1, 0]);
}

#[test]
fn routers_are_refused_with_their_reason() {
    let refused = |config: MoeFeedForwardConfig| {
        MoeRouter::new(config, None)
            .expect_err("invalid router")
            .to_string("NaN")
    };
    assert_eq!(
        refused(MoeFeedForwardConfig {
            routed_expert_count: 0,
            ..test_config()
        }),
        "MoE dimension routed_expert_count must be non-zero"
    );
    assert_eq!(
        refused(MoeFeedForwardConfig {
            experts_per_token: 5,
            ..test_config()
        }),
        "MoE experts_per_token 5 exceeds routed expert count 4"
    );
    assert_eq!(
        refused(MoeFeedForwardConfig {
            expert_group_count: 3,
            ..test_config()
        }),
        "MoE routed expert count 4 is not divisible by 3 groups"
    );
    assert_eq!(
        refused(MoeFeedForwardConfig {
            selected_expert_group_count: 3,
            ..test_config()
        }),
        "MoE selected expert group count 3 must be within 1..=2"
    );
    assert_eq!(
        refused(MoeFeedForwardConfig {
            routed_scaling_factor: f32::NAN.to_bits(),
            ..test_config()
        }),
        "MoE routed scaling factor must be finite and positive, got NaN"
    );
    assert!(matches!(
        MoeRouter::new(test_config(), Some(bits(&[0.0]))),
        Err(MoeRoutingError::CorrectionBiasCountMismatch {
            expected: 4,
            actual: 1
        })
    ));
    let router = MoeRouter::new(test_config(), None).expect("valid router");
    assert_eq!(
        router.check_logits(&bits(&[0.0])),
        Err(MoeRoutingError::LogitCountMismatch {
            expected: 4,
            actual: 1
        })
    );
    assert!(matches!(
        router.check_scores(&bits(&[0.0, f32::INFINITY])),
        Err(MoeRoutingError::NonFiniteSelectionScore { index: 1, .. })
    ));
    assert!(matches!(
        check_normalizer(0.0f32.to_bits()),
        Err(MoeRoutingError::InvalidNormalization(0))
    ));
    assert!(matches!(
        weigh_experts(&vec![3], &bits(&[-1.0])),
        Err(MoeRoutingError::InvalidRoutedWeight { index: 3, .. })
    ));
    assert!(weigh_experts(&vec![3], &bits(&[-0.0])).is_ok());
}
