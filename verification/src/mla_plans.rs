//! Decoders of multi-latent attention and mixtures of experts: the names of their weights, and what
//! their checkpoints must hold.
use vstd::prelude::*;
use vstd::string::*;

use crate::checkpoint::{
    places, requirements, CheckpointTensorRequirement, CheckpointTopology, TensorRequirement,
    Topology,
};
use crate::decoder_plans::{
    dense_feed_forward_requirements, feed_forward_names, layer_prefix, name_if, named,
    names_feed_forward, optional_name, require1, require2, require_column, require_optional1,
    shaped, with_feed_forward, with_optional, DenseFeedForwardWeightNames,
    HybridDecoderExecutionPlan, HybridDecoderLayerKind, HybridDecoderLayerWeightNames,
    HybridFeedForward, HybridMultiLatentAttentionWeightNames, KeyGatedDeltaWeightNames,
    MoeFeedForwardConfig, MoeFeedForwardWeightNames, MultiLatentQueryConfig,
    MultiLatentQueryWeightNames,
};
use crate::model_definition::{hybrid_root, hybrid_root_requirements};
use crate::models::{invalid_message, ModelAdapterError};
use crate::payload::either;
use crate::tensor_names::{
    expert_weight_name, routed_expert_name, routed_expert_names_read_back, ExpertWeightName,
    SafetensorsRoutedExpertProjection, SafetensorsRoutedExpertWeightComponent,
};
use crate::text::{cat2, cat3, decimal, decimal_usize};

verus! {

/// Whether the names are those of the queries at `prefix`.
pub open spec fn names_query(
    names: MultiLatentQueryWeightNames,
    prefix: Seq<char>,
    query: MultiLatentQueryConfig,
) -> bool {
    match (query, names) {
        (MultiLatentQueryConfig::Direct, MultiLatentQueryWeightNames::Direct { weight }) => weight@
            == prefix + ".self_attn.q_proj.weight"@,
        (
            MultiLatentQueryConfig::LowRank { rank },
            MultiLatentQueryWeightNames::LowRank { a_weight, a_norm, b_weight },
        ) => {
            &&& a_weight@ == prefix + ".self_attn.q_a_proj.weight"@
            &&& a_norm@ == prefix + ".self_attn.q_a_layernorm.weight"@
            &&& b_weight@ == prefix + ".self_attn.q_b_proj.weight"@
        },
        _ => false,
    }
}

/// Whether the names are those of multi-latent attention at `prefix`.
pub open spec fn names_mla(
    names: HybridMultiLatentAttentionWeightNames,
    prefix: Seq<char>,
    query: MultiLatentQueryConfig,
) -> bool {
    &&& names_query(names.query, prefix, query)
    &&& names.kv_a_weight@ == prefix + ".self_attn.kv_a_proj_with_mqa.weight"@
    &&& names.kv_a_norm@ == prefix + ".self_attn.kv_a_layernorm.weight"@
    &&& names.kv_b_weight@ == prefix + ".self_attn.kv_b_proj.weight"@
    &&& names.output_weight@ == prefix + ".self_attn.o_proj.weight"@
}

/// The names of multi-latent attention at `prefix`.
pub fn mla_names(prefix: &str, query: MultiLatentQueryConfig) -> (names:
    HybridMultiLatentAttentionWeightNames)
    ensures
        names_mla(names, prefix@, query),
{
    let query_names = match query {
        MultiLatentQueryConfig::Direct => MultiLatentQueryWeightNames::Direct {
            weight: cat2(prefix, ".self_attn.q_proj.weight"),
        },
        MultiLatentQueryConfig::LowRank { rank } => MultiLatentQueryWeightNames::LowRank {
            a_weight: cat2(prefix, ".self_attn.q_a_proj.weight"),
            a_norm: cat2(prefix, ".self_attn.q_a_layernorm.weight"),
            b_weight: cat2(prefix, ".self_attn.q_b_proj.weight"),
        },
    };
    HybridMultiLatentAttentionWeightNames {
        query: query_names,
        kv_a_weight: cat2(prefix, ".self_attn.kv_a_proj_with_mqa.weight"),
        kv_a_norm: cat2(prefix, ".self_attn.kv_a_layernorm.weight"),
        kv_b_weight: cat2(prefix, ".self_attn.kv_b_proj.weight"),
        output_weight: cat2(prefix, ".self_attn.o_proj.weight"),
    }
}

/// The start of the names of the weights of an expert.
pub open spec fn expert_prefix(prefix: Seq<char>, expert: nat) -> Seq<char> {
    prefix + ".mlp.experts."@ + decimal(expert)
}

/// Whether the names are those of a routed expert at `prefix`.
pub open spec fn names_expert(names: DenseFeedForwardWeightNames, prefix: Seq<char>) -> bool {
    &&& names.gate_weight@ == prefix + ".w1.weight"@
    &&& names.down_weight@ == prefix + ".w2.weight"@
    &&& names.up_weight@ == prefix + ".w3.weight"@
}

/// Whether the names are those of a mixture of experts at `prefix`.
pub open spec fn names_moe(
    names: MoeFeedForwardWeightNames,
    prefix: Seq<char>,
    config: MoeFeedForwardConfig,
    has_correction_bias: bool,
) -> bool {
    &&& names.gate_weight@ == prefix + ".mlp.gate.weight"@
    &&& named(names.correction_bias) == name_if(
        has_correction_bias,
        prefix + ".mlp.gate.e_score_correction_bias"@,
    )
    &&& names.experts@.len() == config.routed_expert_count
    &&& forall|e: int|
        0 <= e < config.routed_expert_count ==> names_expert(
            #[trigger] names.experts@[e],
            expert_prefix(prefix, e as nat),
        )
    &&& match names.shared_expert {
        Some(shared) => config.shared_expert_count > 0 && names_feed_forward(
            shared,
            prefix + ".mlp.shared_experts"@,
        ),
        None => config.shared_expert_count == 0,
    }
}

/// The names under which a plan asks for the weights of a routed expert are names of weights of that
/// expert of that layer.
pub proof fn planned_experts_are_recognised(layer_id: usize, expert: usize)
    ensures
        ({
            let prefix = expert_prefix(layer_prefix("model"@, layer_id as nat), expert as nat);
            let named_weight = |projection: SafetensorsRoutedExpertProjection|
                Some(
                    ExpertWeightName {
                        layer_id: layer_id as nat,
                        expert_id: expert as nat,
                        projection,
                        component: SafetensorsRoutedExpertWeightComponent::Weight,
                    },
                );
            &&& expert_weight_name(prefix + ".w1.weight"@) == named_weight(
                SafetensorsRoutedExpertProjection::Gate,
            )
            &&& expert_weight_name(prefix + ".w2.weight"@) == named_weight(
                SafetensorsRoutedExpertProjection::Down,
            )
            &&& expert_weight_name(prefix + ".w3.weight"@) == named_weight(
                SafetensorsRoutedExpertProjection::Up,
            )
        }),
{
    reveal_strlit("model");
    reveal_strlit(".layers.");
    reveal_strlit("model.layers");
    reveal_strlit(".mlp.experts.");
    reveal_strlit("mlp.experts");
    reveal_strlit("w1");
    reveal_strlit("w2");
    reveal_strlit("w3");
    reveal_strlit("gate_proj");
    reveal_strlit("down_proj");
    reveal_strlit("weight");
    reveal_strlit(".w1.weight");
    reveal_strlit(".w2.weight");
    reveal_strlit(".w3.weight");
    let prefix = expert_prefix(layer_prefix("model"@, layer_id as nat), expert as nat);
    let l = layer_id as nat;
    let e = expert as nat;
    assert(prefix + ".w1.weight"@ =~= routed_expert_name(l, e, "w1"@, "weight"@));
    assert(prefix + ".w2.weight"@ =~= routed_expert_name(l, e, "w2"@, "weight"@));
    assert(prefix + ".w3.weight"@ =~= routed_expert_name(l, e, "w3"@, "weight"@));
    assert("w2"@ != "w1"@ && "w3"@ != "w1"@ && "w3"@ != "w2"@) by {
        assert("w1"@[1] == '1' && "w2"@[1] == '2' && "w3"@[1] == '3');
    }
    assert("w2"@.len() != "gate_proj"@.len() && "w3"@.len() != "gate_proj"@.len());
    assert("w3"@.len() != "down_proj"@.len());
    routed_expert_names_read_back(layer_id, expert, "w1"@, "weight"@);
    routed_expert_names_read_back(layer_id, expert, "w2"@, "weight"@);
    routed_expert_names_read_back(layer_id, expert, "w3"@, "weight"@);
}

/// The names of a mixture of experts at `prefix`.
pub fn moe_names(prefix: &str, config: &MoeFeedForwardConfig, has_correction_bias: bool) -> (names:
    MoeFeedForwardWeightNames)
    ensures
        names_moe(names, prefix@, *config, has_correction_bias),
{
    let mut experts: Vec<DenseFeedForwardWeightNames> = Vec::new();
    let mut e: usize = 0;
    while e < config.routed_expert_count
        invariant
            e <= config.routed_expert_count,
            experts@.len() == e,
            forall|j: int|
                0 <= j < e ==> names_expert(
                    #[trigger] experts@[j],
                    expert_prefix(prefix@, j as nat),
                ),
        decreases config.routed_expert_count - e,
    {
        let at = cat3(prefix, ".mlp.experts.", decimal_usize(e).as_str());
        experts.push(
            DenseFeedForwardWeightNames {
                gate_weight: cat2(at.as_str(), ".w1.weight"),
                down_weight: cat2(at.as_str(), ".w2.weight"),
                up_weight: cat2(at.as_str(), ".w3.weight"),
            },
        );
        e = e + 1;
    }
    let shared_expert = if config.shared_expert_count > 0 {
        let at = cat2(prefix, ".mlp.shared_experts");
        Some(feed_forward_names(at.as_str()))
    } else {
        None
    };
    MoeFeedForwardWeightNames {
        gate_weight: cat2(prefix, ".mlp.gate.weight"),
        correction_bias: optional_name(
            has_correction_bias,
            prefix,
            ".mlp.gate.e_score_correction_bias",
        ),
        experts,
        shared_expert,
    }
}

/// Which layers have experts, and what the others have.
#[derive(Clone, Copy, Debug, PartialEq, Eq, Structural)]
pub struct FeedForwardLayout {
    pub first_dense_layer_count: usize,
    pub moe_layer_frequency: usize,
    pub dense_intermediate_size: usize,
    pub moe_config: MoeFeedForwardConfig,
    pub has_correction_bias: bool,
}

impl FeedForwardLayout {
    /// Whether a layer has experts.
    pub open spec fn is_moe(self, layer_id: nat) -> bool {
        layer_id >= self.first_dense_layer_count && layer_id % self.moe_layer_frequency as nat == 0
    }
}

/// Whether the feed-forward network of a layer is named as its layout says.
pub open spec fn names_layer_feed_forward(
    feed_forward: HybridFeedForward,
    prefix: Seq<char>,
    layer_id: nat,
    layout: FeedForwardLayout,
) -> bool {
    match feed_forward {
        HybridFeedForward::Dense { intermediate_size, weights } => {
            &&& !layout.is_moe(layer_id)
            &&& intermediate_size == layout.dense_intermediate_size
            &&& names_feed_forward(weights, prefix + ".mlp"@)
        },
        HybridFeedForward::MixtureOfExperts { config, weights } => {
            &&& layout.is_moe(layer_id)
            &&& config == layout.moe_config
            &&& names_moe(weights, prefix, config, layout.has_correction_bias)
        },
    }
}

/// The feed-forward network of a layer, named as its layout says.
pub fn layer_feed_forward(prefix: &str, layer_id: usize, layout: &FeedForwardLayout) -> (
feed_forward: HybridFeedForward)
    requires
        layout.moe_layer_frequency > 0,
    ensures
        names_layer_feed_forward(feed_forward, prefix@, layer_id as nat, *layout),
{
    if layer_id >= layout.first_dense_layer_count && layer_id % layout.moe_layer_frequency == 0 {
        HybridFeedForward::MixtureOfExperts {
            config: layout.moe_config,
            weights: moe_names(prefix, &layout.moe_config, layout.has_correction_bias),
        }
    } else {
        let at = cat2(prefix, ".mlp");
        HybridFeedForward::Dense {
            intermediate_size: layout.dense_intermediate_size,
            weights: feed_forward_names(at.as_str()),
        }
    }
}

/// The sizes of the projections of multi-latent attention.
#[derive(Clone, Copy, Debug, PartialEq, Eq, Structural)]
pub struct MlaSizes {
    pub query: MultiLatentQueryConfig,
    pub query_size: usize,
    pub compressed_kv_size: usize,
    pub expanded_kv_size: usize,
    pub attention_output_size: usize,
    pub kv_lora_rank: usize,
}

/// The sizes of the projections of key-gated delta attention.
#[derive(Clone, Copy, Debug, PartialEq, Eq, Structural)]
pub struct KdaSizes {
    pub key_size: usize,
    pub value_size: usize,
    pub key_head_dim: usize,
    pub value_head_dim: usize,
    pub num_heads: usize,
    pub conv_kernel_dim: usize,
}

/// Why the mixer of a layer cannot be described; `wrong_mixer` is said of one that does not belong.
pub open spec fn mixer_fault(
    mixer: HybridDecoderLayerKind,
    query: MultiLatentQueryConfig,
    has_kda: bool,
    wrong_mixer: Seq<char>,
) -> Option<Seq<char>> {
    match mixer {
        HybridDecoderLayerKind::MultiLatentAttention { cache_layer_index, weights } => if (query
            is Direct) == (weights.query is Direct) {
            None
        } else {
            Some("MLA query config does not match its checkpoint weight mapping"@)
        },
        HybridDecoderLayerKind::KeyGatedDelta { state_layer_index, weights } => if has_kda {
            None
        } else {
            Some(wrong_mixer)
        },
        _ => Some(wrong_mixer),
    }
}

/// Why the feed-forward network of a layer cannot be described.
pub open spec fn layer_moe_fault(feed_forward: HybridFeedForward) -> Option<Seq<char>> {
    match feed_forward {
        HybridFeedForward::MixtureOfExperts { config, weights } => if weights.shared_expert is Some
            && config.expert_intermediate_size * config.shared_expert_count > usize::MAX {
            Some("shared expert intermediate size overflowed"@)
        } else {
            None
        },
        _ => None,
    }
}

/// With the tensors of multi-latent attention.
pub open spec fn with_mla(
    tensors: Seq<TensorRequirement>,
    weights: HybridMultiLatentAttentionWeightNames,
    h: usize,
    sizes: MlaSizes,
) -> Seq<TensorRequirement> {
    let query = match (sizes.query, weights.query) {
        (MultiLatentQueryConfig::Direct, MultiLatentQueryWeightNames::Direct { weight }) => {
            tensors.push(shaped(weight@, seq![sizes.query_size, h]))
        },
        (
            MultiLatentQueryConfig::LowRank { rank },
            MultiLatentQueryWeightNames::LowRank { a_weight, a_norm, b_weight },
        ) => tensors.push(shaped(a_weight@, seq![rank, h])).push(
            shaped(a_norm@, seq![rank]),
        ).push(shaped(b_weight@, seq![sizes.query_size, rank])),
        _ => tensors,
    };
    query.push(shaped(weights.kv_a_weight@, seq![sizes.compressed_kv_size, h])).push(
        shaped(weights.kv_a_norm@, seq![sizes.kv_lora_rank]),
    ).push(shaped(weights.kv_b_weight@, seq![sizes.expanded_kv_size, sizes.kv_lora_rank])).push(
        shaped(weights.output_weight@, seq![h, sizes.attention_output_size]),
    )
}

/// With the tensors of key-gated delta attention.
pub open spec fn with_kda(
    tensors: Seq<TensorRequirement>,
    weights: KeyGatedDeltaWeightNames,
    h: usize,
    sizes: KdaSizes,
) -> Seq<TensorRequirement> {
    tensors.push(shaped(weights.a_log@, seq![1usize, 1usize, sizes.num_heads, 1usize])).push(
        shaped(weights.dt_bias@, seq![sizes.key_size]),
    ).push(shaped(weights.query_weight@, seq![sizes.key_size, h])).push(
        shaped(weights.key_weight@, seq![sizes.key_size, h]),
    ).push(shaped(weights.value_weight@, seq![sizes.value_size, h])).push(
        shaped(weights.beta_weight@, seq![sizes.num_heads, h]),
    ).push(shaped(weights.forget_a_weight@, seq![sizes.key_head_dim, h])).push(
        shaped(weights.forget_b_weight@, seq![sizes.key_size, sizes.key_head_dim]),
    ).push(shaped(weights.gate_a_weight@, seq![sizes.key_head_dim, h])).push(
        shaped(weights.gate_b_weight@, seq![sizes.value_size, sizes.key_head_dim]),
    ).push(shaped(weights.query_conv_weight@, seq![sizes.key_size, sizes.conv_kernel_dim])).push(
        shaped(weights.key_conv_weight@, seq![sizes.key_size, sizes.conv_kernel_dim]),
    ).push(
        shaped(weights.value_conv_weight@, seq![sizes.value_size, sizes.conv_kernel_dim]),
    ).push(shaped(weights.output_norm@, seq![sizes.value_head_dim])).push(
        shaped(weights.output_weight@, seq![h, sizes.value_size]),
    )
}

/// With the tensors of the first `n` experts.
pub open spec fn with_experts(
    tensors: Seq<TensorRequirement>,
    experts: Seq<DenseFeedForwardWeightNames>,
    h: usize,
    intermediate_size: usize,
    n: nat,
) -> Seq<TensorRequirement>
    decreases n,
{
    if n == 0 || n > experts.len() {
        tensors
    } else {
        with_feed_forward(
            with_experts(tensors, experts, h, intermediate_size, (n - 1) as nat),
            experts[n - 1],
            h,
            intermediate_size,
        )
    }
}

/// With the tensors of a feed-forward network.
pub open spec fn with_layer_feed_forward(
    tensors: Seq<TensorRequirement>,
    feed_forward: HybridFeedForward,
    h: usize,
) -> Seq<TensorRequirement> {
    match feed_forward {
        HybridFeedForward::Dense { intermediate_size, weights } => with_feed_forward(
            tensors,
            weights,
            h,
            intermediate_size,
        ),
        HybridFeedForward::MixtureOfExperts { config, weights } => {
            let routed = with_experts(
                with_optional(
                    tensors.push(shaped(weights.gate_weight@, seq![config.routed_expert_count, h])),
                    weights.correction_bias,
                    seq![config.routed_expert_count],
                ),
                weights.experts@,
                h,
                config.expert_intermediate_size,
                weights.experts@.len(),
            );
            match weights.shared_expert {
                Some(shared) => with_feed_forward(
                    routed,
                    shared,
                    h,
                    (config.expert_intermediate_size * config.shared_expert_count) as usize,
                ),
                None => routed,
            }
        },
    }
}

/// With the tensors of a layer.
pub open spec fn with_mla_layer(
    tensors: Seq<TensorRequirement>,
    layer: HybridDecoderLayerWeightNames,
    h: usize,
    mla: MlaSizes,
    kda: Option<KdaSizes>,
) -> Seq<TensorRequirement> {
    let norms = tensors.push(shaped(layer.input_norm@, seq![h])).push(
        shaped(layer.post_attention_norm@, seq![h]),
    );
    let mixed = match layer.mixer {
        HybridDecoderLayerKind::MultiLatentAttention { cache_layer_index, weights } => with_mla(
            norms,
            weights,
            h,
            mla,
        ),
        HybridDecoderLayerKind::KeyGatedDelta { state_layer_index, weights } => with_kda(
            norms,
            weights,
            h,
            kda->0,
        ),
        _ => norms,
    };
    with_layer_feed_forward(mixed, layer.feed_forward, h)
}

/// The tensors of a decoder with its first `n` layers.
pub open spec fn mla_tensors(
    plan: HybridDecoderExecutionPlan,
    mla: MlaSizes,
    kda: Option<KdaSizes>,
    n: nat,
) -> Seq<TensorRequirement>
    decreases n,
{
    if n == 0 || n > plan.weights.layers@.len() {
        hybrid_root(plan)
    } else {
        with_mla_layer(
            mla_tensors(plan, mla, kda, (n - 1) as nat),
            plan.weights.layers@[n - 1],
            plan.hidden_size,
            mla,
            kda,
        )
    }
}

/// The number of routed experts of a layer.
pub open spec fn experts_in(layer: HybridDecoderLayerWeightNames) -> nat {
    match layer.feed_forward {
        HybridFeedForward::MixtureOfExperts { config, weights } => weights.experts@.len(),
        _ => 0,
    }
}

/// The layers and numbers of the routed experts of the first `n` layers.
pub open spec fn expert_coordinates(
    layers: Seq<HybridDecoderLayerWeightNames>,
    n: nat,
) -> Seq<(usize, usize)>
    decreases n,
{
    if n == 0 || n > layers.len() {
        Seq::empty()
    } else {
        expert_coordinates(layers, (n - 1) as nat) + Seq::new(
            experts_in(layers[n - 1]),
            |e: int| ((n - 1) as usize, e as usize),
        )
    }
}

/// Why one of the first `n` layers cannot be described.
pub open spec fn mla_layers_fault(
    layers: Seq<HybridDecoderLayerWeightNames>,
    query: MultiLatentQueryConfig,
    has_kda: bool,
    wrong_mixer: Seq<char>,
    n: nat,
) -> Option<Seq<char>>
    decreases n,
{
    if n == 0 || n > layers.len() {
        None
    } else {
        either(
            mla_layers_fault(layers, query, has_kda, wrong_mixer, (n - 1) as nat),
            either(
                mixer_fault(layers[n - 1].mixer, query, has_kda, wrong_mixer),
                layer_moe_fault(layers[n - 1].feed_forward),
            ),
        )
    }
}

proof fn lemma_mla_fault_stays(
    layers: Seq<HybridDecoderLayerWeightNames>,
    query: MultiLatentQueryConfig,
    has_kda: bool,
    wrong_mixer: Seq<char>,
    n: nat,
    m: nat,
)
    requires
        n <= m <= layers.len(),
        mla_layers_fault(layers, query, has_kda, wrong_mixer, n) is Some,
    ensures
        mla_layers_fault(layers, query, has_kda, wrong_mixer, m) == mla_layers_fault(
            layers,
            query,
            has_kda,
            wrong_mixer,
            n,
        ),
    decreases m - n,
{
    if n < m {
        lemma_mla_fault_stays(layers, query, has_kda, wrong_mixer, n, (m - 1) as nat);
    }
}

fn mla_requirements(
    tensors: &mut Vec<CheckpointTensorRequirement>,
    weights: &HybridMultiLatentAttentionWeightNames,
    h: usize,
    sizes: &MlaSizes,
) -> (fits: Result<(), String>)
    ensures
        match fits {
            Ok(_) => (sizes.query is Direct) == (weights.query is Direct) && requirements(
                final(tensors)@,
            ) == with_mla(requirements(old(tensors)@), *weights, h, *sizes),
            Err(message) => (sizes.query is Direct) != (weights.query is Direct) && message@
                == "MLA query config does not match its checkpoint weight mapping"@,
        },
{
    match (sizes.query, &weights.query) {
        (MultiLatentQueryConfig::Direct, MultiLatentQueryWeightNames::Direct { weight }) => {
            require2(tensors, weight.as_str(), sizes.query_size, h);
        },
        (
            MultiLatentQueryConfig::LowRank { rank },
            MultiLatentQueryWeightNames::LowRank { a_weight, a_norm, b_weight },
        ) => {
            require2(tensors, a_weight.as_str(), rank, h);
            require1(tensors, a_norm.as_str(), rank);
            require2(tensors, b_weight.as_str(), sizes.query_size, rank);
        },
        _ => {
            return Err(
                "MLA query config does not match its checkpoint weight mapping".to_owned(),
            );
        },
    }
    require2(tensors, weights.kv_a_weight.as_str(), sizes.compressed_kv_size, h);
    require1(tensors, weights.kv_a_norm.as_str(), sizes.kv_lora_rank);
    require2(tensors, weights.kv_b_weight.as_str(), sizes.expanded_kv_size, sizes.kv_lora_rank);
    require2(tensors, weights.output_weight.as_str(), h, sizes.attention_output_size);
    Ok(())
}

fn kda_requirements(
    tensors: &mut Vec<CheckpointTensorRequirement>,
    weights: &KeyGatedDeltaWeightNames,
    h: usize,
    sizes: &KdaSizes,
)
    ensures
        requirements(final(tensors)@) == with_kda(
            requirements(old(tensors)@),
            *weights,
            h,
            *sizes,
        ),
{
    require_column(tensors, weights.a_log.as_str(), sizes.num_heads);
    require1(tensors, weights.dt_bias.as_str(), sizes.key_size);
    require2(tensors, weights.query_weight.as_str(), sizes.key_size, h);
    require2(tensors, weights.key_weight.as_str(), sizes.key_size, h);
    require2(tensors, weights.value_weight.as_str(), sizes.value_size, h);
    require2(tensors, weights.beta_weight.as_str(), sizes.num_heads, h);
    require2(tensors, weights.forget_a_weight.as_str(), sizes.key_head_dim, h);
    require2(tensors, weights.forget_b_weight.as_str(), sizes.key_size, sizes.key_head_dim);
    require2(tensors, weights.gate_a_weight.as_str(), sizes.key_head_dim, h);
    require2(tensors, weights.gate_b_weight.as_str(), sizes.value_size, sizes.key_head_dim);
    require2(tensors, weights.query_conv_weight.as_str(), sizes.key_size, sizes.conv_kernel_dim);
    require2(tensors, weights.key_conv_weight.as_str(), sizes.key_size, sizes.conv_kernel_dim);
    require2(
        tensors,
        weights.value_conv_weight.as_str(),
        sizes.value_size,
        sizes.conv_kernel_dim,
    );
    require1(tensors, weights.output_norm.as_str(), sizes.value_head_dim);
    require2(tensors, weights.output_weight.as_str(), h, sizes.value_size);
}

fn feed_forward_requirements(
    tensors: &mut Vec<CheckpointTensorRequirement>,
    coordinates: &mut Vec<(usize, usize)>,
    feed_forward: &HybridFeedForward,
    h: usize,
    layer_id: usize,
) -> (fits: Result<(), String>)
    ensures
        match fits {
            Ok(_) => layer_moe_fault(*feed_forward) is None && requirements(final(tensors)@)
                == with_layer_feed_forward(requirements(old(tensors)@), *feed_forward, h)
                && final(coordinates)@ == old(coordinates)@ + Seq::new(
                (match *feed_forward {
                    HybridFeedForward::MixtureOfExperts { config, weights } => {
                        weights.experts@.len()
                    },
                    _ => 0,
                }),
                |e: int| (layer_id, e as usize),
            ),
            Err(message) => layer_moe_fault(*feed_forward) == Some(message@),
        },
{
    let ghost first = coordinates@;
    match feed_forward {
        HybridFeedForward::Dense { intermediate_size, weights } => {
            dense_feed_forward_requirements(tensors, weights, h, *intermediate_size);
            proof {
                assert(coordinates@ =~= first + Seq::new(0, |e: int| (layer_id, e as usize)));
            }
        },
        HybridFeedForward::MixtureOfExperts { config, weights } => {
            require2(tensors, weights.gate_weight.as_str(), config.routed_expert_count, h);
            require_optional1(tensors, &weights.correction_bias, config.routed_expert_count);
            let ghost start = requirements(tensors@);
            let mut e: usize = 0;
            proof {
                assert(coordinates@ =~= first + Seq::new(0, |e: int| (layer_id, e as usize)));
            }
            while e < weights.experts.len()
                invariant
                    e <= weights.experts@.len(),
                    requirements(tensors@) == with_experts(
                        start,
                        weights.experts@,
                        h,
                        config.expert_intermediate_size,
                        e as nat,
                    ),
                    coordinates@ == first + Seq::new(e as nat, |k: int| (layer_id, k as usize)),
                decreases weights.experts@.len() - e,
            {
                dense_feed_forward_requirements(
                    tensors,
                    &weights.experts[e],
                    h,
                    config.expert_intermediate_size,
                );
                coordinates.push((layer_id, e));
                e = e + 1;
                proof {
                    assert(coordinates@ =~= first + Seq::new(
                        e as nat,
                        |k: int| (layer_id, k as usize),
                    ));
                }
            }
            if let Some(shared) = &weights.shared_expert {
                let size: usize = match config.expert_intermediate_size.checked_mul(
                    config.shared_expert_count,
                ) {
                    Some(size) => size,
                    None => {
                        return Err("shared expert intermediate size overflowed".to_owned());
                    },
                };
                dense_feed_forward_requirements(tensors, shared, h, size);
            }
        },
    }
    Ok(())
}

/// What the checkpoint of a decoder of multi-latent attention must hold.
pub fn mla_checkpoint_topology(
    architecture: &str,
    plan: &HybridDecoderExecutionPlan,
    mla: &MlaSizes,
    kda: &Option<KdaSizes>,
    wrong_mixer: &str,
) -> (topology: Result<CheckpointTopology, ModelAdapterError>)
    ensures
        ({
            let layers = plan.weights.layers@;
            let fault = mla_layers_fault(
                layers,
                mla.query,
                *kda is Some,
                wrong_mixer@,
                layers.len(),
            );
            match topology {
                Ok(t) => t.wf() && fault is None && t@ == (Topology {
                    tensors: mla_tensors(*plan, *mla, *kda, layers.len()),
                    experts: places(expert_coordinates(layers, layers.len())),
                    weights_per_group: 3,
                }),
                Err(e) => fault is Some && e@ == invalid_message(architecture@, fault->0),
            }
        }),
{
    let layers = &plan.weights.layers;
    let mut tensors = hybrid_root_requirements(plan);
    let mut coordinates: Vec<(usize, usize)> = Vec::new();
    let mut i: usize = 0;
    proof {
        assert(coordinates@ =~= Seq::empty());
    }
    while i < layers.len()
        invariant
            i <= layers@.len(),
            *layers == plan.weights.layers,
            requirements(tensors@) == mla_tensors(*plan, *mla, *kda, i as nat),
            coordinates@ == expert_coordinates(layers@, i as nat),
            mla_layers_fault(layers@, mla.query, *kda is Some, wrong_mixer@, i as nat) is None,
        decreases layers@.len() - i,
    {
        let layer = &layers[i];
        let ghost before = coordinates@;
        proof {
            if mla_layers_fault(
                layers@,
                mla.query,
                *kda is Some,
                wrong_mixer@,
                (i + 1) as nat,
            ) is Some {
                lemma_mla_fault_stays(
                    layers@,
                    mla.query,
                    *kda is Some,
                    wrong_mixer@,
                    (i + 1) as nat,
                    layers@.len(),
                );
            }
        }
        require1(&mut tensors, layer.input_norm.as_str(), plan.hidden_size);
        require1(&mut tensors, layer.post_attention_norm.as_str(), plan.hidden_size);
        match &layer.mixer {
            HybridDecoderLayerKind::MultiLatentAttention { weights, .. } => {
                match mla_requirements(&mut tensors, weights, plan.hidden_size, mla) {
                    Ok(_) => {},
                    Err(message) => {
                        return Err(ModelAdapterError::invalid(architecture, message.as_str()));
                    },
                }
            },
            HybridDecoderLayerKind::KeyGatedDelta { weights, .. } => match kda {
                Some(sizes) => {
                    kda_requirements(&mut tensors, weights, plan.hidden_size, sizes);
                },
                None => {
                    return Err(ModelAdapterError::invalid(architecture, wrong_mixer));
                },
            },
            _ => {
                return Err(ModelAdapterError::invalid(architecture, wrong_mixer));
            },
        }
        match feed_forward_requirements(
            &mut tensors,
            &mut coordinates,
            &layer.feed_forward,
            plan.hidden_size,
            i,
        ) {
            Ok(_) => {},
            Err(message) => {
                return Err(ModelAdapterError::invalid(architecture, message.as_str()));
            },
        }
        proof {
            assert(coordinates@ =~= before + Seq::new(
                experts_in(*layer),
                |e: int| (i as usize, e as usize),
            ));
            assert(coordinates@ =~= expert_coordinates(layers@, (i + 1) as nat));
        }
        i = i + 1;
    }
    Ok(CheckpointTopology::new(tensors).with_routed_experts(&coordinates, 3))
}

} // verus!
