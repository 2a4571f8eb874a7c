//! Kimi Linear: key-gated delta attention and multi-latent attention in turn.
use vstd::prelude::*;
use vstd::string::*;

use crate::checkpoint::{places, Topology};
use crate::debug_text::{optional, show_option, shown_option};
use crate::decoder_plans::{
    layer_prefix, name_if, named, prefix_of_layer, DecoderNormalization, HybridDecoderExecutionPlan,
    HybridDecoderLayerKind, HybridDecoderLayerWeightNames, HybridDecoderWeightNames,
    HybridFullAttentionConfig, HybridLinearAttentionConfig, KeyGatedDeltaWeightNames,
    MoeFeedForwardConfig, MultiLatentQueryConfig, RotaryEmbeddingConfig, RotaryEmbeddingStyle,
};
use crate::deepseek::{
    activation_name_fault, activation_named, given, is_given, latent_cache, number_or, or_else,
    query_config, query_of, query_rank_fault, router_activation,
};
use crate::json::Json;
use crate::kv_cache::KvCacheModelLayout;
use crate::mla_plans::{
    expert_coordinates, layer_feed_forward, mla_checkpoint_topology, mla_layers_fault, mla_names,
    mla_tensors, names_layer_feed_forward, names_mla, FeedForwardLayout, KdaSizes, MlaSizes,
};
use crate::model_config::HfModelConfig;
use crate::model_definition::{bare_definition, hybrid_cache, hybrid_state, ModelDefinition};
use crate::models::{
    checked_add, checked_product, invalid_message, missing_field_message, positive_fault,
    positive_float, product_fault, required_fault, required_usize, sum_fault,
    AttentionArchitecture, ConfigNumber, DenseDecoderActivation, FeedForwardArchitecture,
    ModelAdapterError, ModelCacheArchitecture, ModelExecutionArchitecture, RuntimeDtype,
};
use crate::payload::either;
use crate::text::{cat2, cat3, cat4, cat5, decimal, decimal_usize, same_text};

verus! {

/// The linear attention of a configuration.
#[derive(Clone, Debug)]
pub struct KimiLinearAttentionConfig {
    pub head_dim: Option<usize>,
    pub num_heads: Option<usize>,
    pub short_conv_kernel_size: Option<usize>,
    pub kda_layers: Option<Vec<usize>>,
    pub full_attn_layers: Option<Vec<usize>>,
}

/// The configuration of Kimi Linear.
#[derive(Debug)]
pub struct KimiLinearConfig {
    pub model_type: Option<String>,
    pub vocab_size: Option<usize>,
    pub model_max_length: Option<usize>,
    pub hidden_size: Option<usize>,
    pub intermediate_size: Option<usize>,
    pub num_hidden_layers: Option<usize>,
    pub num_attention_heads: Option<usize>,
    pub num_key_value_heads: Option<usize>,
    pub hidden_act: Option<String>,
    pub rms_norm_eps: Option<ConfigNumber>,
    pub rope_theta: Option<ConfigNumber>,
    pub rope_scaling: Option<Json>,
    pub tie_word_embeddings: Option<bool>,
    pub moe_intermediate_size: Option<usize>,
    pub moe_renormalize: Option<bool>,
    pub moe_router_activation_func: Option<String>,
    pub num_experts: Option<usize>,
    pub num_experts_per_token: Option<usize>,
    pub num_shared_experts: Option<usize>,
    pub routed_scaling_factor: Option<ConfigNumber>,
    pub first_k_dense_replace: Option<usize>,
    pub moe_layer_freq: Option<usize>,
    pub use_grouped_topk: Option<bool>,
    pub num_expert_group: Option<usize>,
    pub topk_group: Option<usize>,
    pub q_lora_rank: Option<usize>,
    pub kv_lora_rank: Option<usize>,
    pub qk_nope_head_dim: Option<usize>,
    pub qk_rope_head_dim: Option<usize>,
    pub v_head_dim: Option<usize>,
    pub mla_use_nope: Option<bool>,
    pub num_nextn_predict_layers: Option<usize>,
    pub linear_attn_config: Option<KimiLinearAttentionConfig>,
}

/// The name of the architecture.
pub open spec fn kimi() -> Seq<char> {
    "KimiLinearForCausalLM"@
}

/// Something that is wrong with a configuration of Kimi Linear.
pub open spec fn wrong(message: Seq<char>) -> Option<Seq<char>> {
    Some(invalid_message(kimi(), message))
}

fn invalid(message: &str) -> (error: ModelAdapterError)
    ensures
        Some(error@) == wrong(message@),
{
    ModelAdapterError::invalid("KimiLinearForCausalLM", message)
}

/// Why a feature of a configuration cannot be used.
pub open spec fn features_fault(config: KimiLinearConfig) -> Option<Seq<char>> {
    if optional(config.model_type) != Some("kimi_linear"@) {
        wrong("model_type must be kimi_linear; found "@ + shown_option(optional(config.model_type)))
    } else if optional(config.hidden_act) != Some("silu"@) {
        wrong("hidden_act must be silu; found "@ + shown_option(optional(config.hidden_act)))
    } else if given(config.rope_scaling) {
        wrong("rope_scaling is not implemented by the shared MLA component"@)
    } else if config.mla_use_nope != Some(true) {
        wrong("mla_use_nope=true is required by the shared Kimi MLA component"@)
    } else if or_else(config.num_nextn_predict_layers, 0) != 0 {
        wrong("next-token prediction layers are not implemented"@)
    } else {
        None
    }
}

fn check_features(config: &KimiLinearConfig) -> (valid: Result<(), ModelAdapterError>)
    ensures
        match valid {
            Ok(_) => features_fault(*config) is None,
            Err(e) => features_fault(*config) == Some(e@),
        },
{
    let linear = match &config.model_type {
        Some(name) => same_text(name.as_str(), "kimi_linear"),
        None => false,
    };
    if !linear {
        return Err(
            invalid(
                cat2(
                    "model_type must be kimi_linear; found ",
                    show_option(&config.model_type).as_str(),
                ).as_str(),
            ),
        );
    }
    let silu = match &config.hidden_act {
        Some(name) => same_text(name.as_str(), "silu"),
        None => false,
    };
    if !silu {
        return Err(
            invalid(
                cat2(
                    "hidden_act must be silu; found ",
                    show_option(&config.hidden_act).as_str(),
                ).as_str(),
            ),
        );
    }
    if is_given(&config.rope_scaling) {
        return Err(invalid("rope_scaling is not implemented by the shared MLA component"));
    }
    let nope = match config.mla_use_nope {
        Some(nope) => nope,
        None => false,
    };
    if !nope {
        return Err(invalid("mla_use_nope=true is required by the shared Kimi MLA component"));
    }
    if number_or(config.num_nextn_predict_layers, 0) != 0 {
        return Err(invalid("next-token prediction layers are not implemented"));
    }
    Ok(())
}

/// Why the heads of keys and values are not those of the queries.
pub open spec fn kv_heads_fault(c: KimiLinearConfig) -> Option<Seq<char>> {
    let heads = c.num_attention_heads->0;
    let kv = or_else(c.num_key_value_heads, heads);
    if kv != heads {
        wrong(
            "num_key_value_heads "@ + decimal(kv as nat) + " must equal num_attention_heads "@
                + decimal(heads as nat) + " for Kimi MLA"@,
        )
    } else {
        None
    }
}

/// Why more experts are asked for than there are.
pub open spec fn choice_fault(c: KimiLinearConfig) -> Option<Seq<char>> {
    let chosen = c.num_experts_per_token->0;
    let routed = c.num_experts->0;
    if chosen > routed {
        wrong(
            "num_experts_per_token "@ + decimal(chosen as nat) + " exceeds num_experts "@ + decimal(
                routed as nat,
            ),
        )
    } else {
        None
    }
}

/// Why the sizes of a configuration cannot be used.
pub open spec fn sizes_fault(c: KimiLinearConfig) -> Option<Seq<char>> {
    let a = kimi();
    let head = either(
        required_fault(a, "vocab_size"@, c.vocab_size),
        either(
            required_fault(a, "hidden_size"@, c.hidden_size),
            either(
                query_rank_fault(a, c.q_lora_rank),
                either(
                    required_fault(a, "intermediate_size"@, c.intermediate_size),
                    either(
                        required_fault(a, "num_hidden_layers"@, c.num_hidden_layers),
                        either(
                            required_fault(a, "num_attention_heads"@, c.num_attention_heads),
                            kv_heads_fault(c),
                        ),
                    ),
                ),
            ),
        ),
    );
    let attention = either(
        required_fault(a, "kv_lora_rank"@, c.kv_lora_rank),
        either(
            required_fault(a, "qk_nope_head_dim"@, c.qk_nope_head_dim),
            either(
                required_fault(a, "qk_rope_head_dim"@, c.qk_rope_head_dim),
                required_fault(a, "v_head_dim"@, c.v_head_dim),
            ),
        ),
    );
    let experts = either(
        required_fault(a, "num_experts"@, c.num_experts),
        either(
            required_fault(a, "num_experts_per_token"@, c.num_experts_per_token),
            either(
                choice_fault(c),
                required_fault(a, "moe_intermediate_size"@, c.moe_intermediate_size),
            ),
        ),
    );
    either(head, either(attention, experts))
}

/// Why the layers or the groups of experts of a configuration cannot be used.
pub open spec fn layout_fault(c: KimiLinearConfig) -> Option<Seq<char>> {
    let a = kimi();
    let groups = c.num_expert_group->0;
    let selected = c.topk_group->0;
    let first_dense = if or_else(c.first_k_dense_replace, 0) > c.num_hidden_layers->0 {
        wrong("first_k_dense_replace exceeds num_hidden_layers"@)
    } else {
        None
    };
    let uneven = if c.num_experts->0 % groups != 0 || selected > groups {
        wrong(
            "num_experts must divide evenly into num_expert_group and topk_group must not exceed it"@,
        )
    } else if c.use_grouped_topk == Some(false) && (groups != 1 || selected != 1) {
        wrong("use_grouped_topk=false is only valid with one expert group"@)
    } else {
        None
    };
    either(
        first_dense,
        either(
            required_fault(a, "moe_layer_freq"@, c.moe_layer_freq),
            either(
                required_fault(a, "num_expert_group"@, c.num_expert_group),
                either(required_fault(a, "topk_group"@, c.topk_group), uneven),
            ),
        ),
    )
}

/// Why the router of a configuration cannot be used, or a fraction of it.
pub open spec fn router_fault(c: KimiLinearConfig) -> Option<Seq<char>> {
    let a = kimi();
    either(
        activation_name_fault(
            a,
            optional(c.moe_router_activation_func),
            "unsupported MoE router activation "@,
            "moe_router_activation_func"@,
        ),
        either(
            positive_fault(a, "routed_scaling_factor"@, c.routed_scaling_factor),
            either(
                positive_fault(a, "rms_norm_eps"@, c.rms_norm_eps),
                either(
                    positive_fault(a, "rope_theta"@, c.rope_theta),
                    required_fault(a, "model_max_length"@, c.model_max_length),
                ),
            ),
        ),
    )
}

/// Why the rotary embedding cannot be used: what the kernel said of it.
pub open spec fn rotary_fault(rotary: Result<(), String>) -> Option<Seq<char>> {
    match rotary {
        Ok(_) => None,
        Err(message) => wrong(message@),
    }
}

/// Whether a number is the least of those that `wanted` holds of.
pub open spec fn is_least(wanted: spec_fn(usize) -> bool, n: usize) -> bool {
    wanted(n) && forall|m: usize| m < n ==> !#[trigger] wanted(m)
}

/// The least number that `wanted` holds of.
pub open spec fn least(wanted: spec_fn(usize) -> bool) -> Option<usize> {
    if exists|n: usize| is_least(wanted, n) {
        Some(choose|n: usize| is_least(wanted, n))
    } else {
        None
    }
}

proof fn lemma_least(wanted: spec_fn(usize) -> bool, n: usize)
    requires
        is_least(wanted, n),
    ensures
        least(wanted) == Some(n),
{
    let found = choose|n: usize| is_least(wanted, n);
    assert(is_least(wanted, found));
    if found < n {
        assert(!wanted(found));
    }
    if n < found {
        assert(!wanted(n));
    }
}

/// Whether a layer is outside the model; layers are numbered from one.
pub open spec fn outside(layers: Seq<usize>, num_layers: usize) -> spec_fn(usize) -> bool {
    |n: usize| layers.contains(n) && (n == 0 || n > num_layers)
}

/// Whether a layer is in both lists.
pub open spec fn shared(a: Seq<usize>, b: Seq<usize>) -> spec_fn(usize) -> bool {
    |n: usize| a.contains(n) && b.contains(n)
}

/// Why a list of layers cannot be used.
pub open spec fn layer_list_fault(
    field: Seq<char>,
    layers: Option<Vec<usize>>,
    num_layers: usize,
) -> Option<Seq<char>> {
    match layers {
        None => Some(missing_field_message(kimi(), "linear_attn_config."@ + field)),
        Some(list) => if !list@.no_duplicates() {
            wrong("linear_attn_config."@ + field + " contains duplicate layers"@)
        } else {
            match least(outside(list@, num_layers)) {
                Some(layer) => wrong(
                    "linear_attn_config."@ + field + " contains out-of-range layer "@ + decimal(
                        layer as nat,
                    ),
                ),
                None => None,
            }
        },
    }
}

/// Whether every layer of a model is in one of the lists.
pub open spec fn all_listed(a: Seq<usize>, b: Seq<usize>, num_layers: usize) -> bool {
    forall|n: usize| 1 <= n <= num_layers ==> #[trigger] a.contains(n) || b.contains(n)
}

/// Why the lists of layers do not divide the layers of the model.
pub open spec fn partition_fault(linear: KimiLinearAttentionConfig, num_layers: usize) -> Option<
    Seq<char>,
> {
    let kda = linear.kda_layers->0@;
    let full = linear.full_attn_layers->0@;
    let division = if kda.len() == 0 || full.len() == 0 {
        wrong("Kimi hybrid execution requires at least one KDA and one full-attention layer"@)
    } else {
        match least(shared(kda, full)) {
            Some(layer) => wrong(
                "layer "@ + decimal(layer as nat)
                    + " appears in both KDA and full-attention lists"@,
            ),
            None => if all_listed(kda, full, num_layers) {
                None
            } else {
                wrong("KDA and full-attention layer lists must partition every 1-based model layer"@)
            },
        }
    };
    either(
        layer_list_fault("kda_layers"@, linear.kda_layers, num_layers),
        either(
            layer_list_fault("full_attn_layers"@, linear.full_attn_layers, num_layers),
            division,
        ),
    )
}

/// Lists that divide the layers of a model: every layer is in exactly one of them.
pub proof fn divided_layers_are_in_one_list(
    linear: KimiLinearAttentionConfig,
    num_layers: usize,
    layer: usize,
)
    requires
        partition_fault(linear, num_layers) is None,
        1 <= layer <= num_layers,
    ensures
        linear.kda_layers is Some,
        linear.full_attn_layers is Some,
        linear.kda_layers->0@.contains(layer) != linear.full_attn_layers->0@.contains(layer),
{
    let kda = linear.kda_layers->0@;
    let full = linear.full_attn_layers->0@;
    assert(kda.contains(layer) || full.contains(layer));
    if kda.contains(layer) && full.contains(layer) {
        lemma_some_least(shared(kda, full), layer);
    }
}

proof fn lemma_some_least(wanted: spec_fn(usize) -> bool, n: usize)
    requires
        wanted(n),
    ensures
        least(wanted) is Some,
    decreases n,
{
    if exists|m: usize| m < n && #[trigger] wanted(m) {
        let m = choose|m: usize| m < n && #[trigger] wanted(m);
        lemma_some_least(wanted, m);
    } else {
        assert(is_least(wanted, n));
    }
}

fn list_contains(list: &Vec<usize>, n: usize) -> (found: bool)
    ensures
        found == list@.contains(n),
{
    let mut i: usize = 0;
    while i < list.len()
        invariant
            i <= list@.len(),
            forall|j: int| 0 <= j < i ==> list@[j] != n,
        decreases list@.len() - i,
    {
        if list[i] == n {
            return true;
        }
        i = i + 1;
    }
    false
}

fn has_duplicates(list: &Vec<usize>) -> (duplicates: bool)
    ensures
        duplicates == !list@.no_duplicates(),
{
    let mut i: usize = 0;
    while i < list.len()
        invariant
            i <= list@.len(),
            forall|a: int, b: int| 0 <= a < b < i ==> list@[a] != list@[b],
        decreases list@.len() - i,
    {
        let mut j: usize = 0;
        while j < i
            invariant
                j <= i < list@.len(),
                forall|a: int| 0 <= a < j ==> list@[a] != list@[i as int],
            decreases i - j,
        {
            if list[j] == list[i] {
                return true;
            }
            j = j + 1;
        }
        i = i + 1;
    }
    false
}

fn first_outside(list: &Vec<usize>, num_layers: usize) -> (layer: Option<usize>)
    ensures
        layer == least(outside(list@, num_layers)),
{
    let ghost wanted = outside(list@, num_layers);
    let mut best: Option<usize> = None;
    let mut i: usize = 0;
    while i < list.len()
        invariant
            i <= list@.len(),
            wanted == outside(list@, num_layers),
            match best {
                Some(n) => wanted(n) && forall|j: int|
                    0 <= j < i && wanted(#[trigger] list@[j]) ==> n <= list@[j],
                None => forall|j: int| 0 <= j < i ==> !wanted(#[trigger] list@[j]),
            },
        decreases list@.len() - i,
    {
        let n: usize = list[i];
        proof {
            assert(list@.contains(list@[i as int]));
        }
        if n == 0 || n > num_layers {
            match best {
                Some(m) => {
                    if n < m {
                        best = Some(n);
                    }
                },
                None => {
                    best = Some(n);
                },
            }
        }
        i = i + 1;
    }
    proof {
        match best {
            Some(n) => {
                assert forall|m: usize| m < n implies !#[trigger] wanted(m) by {
                    if list@.contains(m) {
                        let j = choose|j: int| 0 <= j < list@.len() && list@[j] == m;
                        assert(list@[j] == m);
                    }
                }
                lemma_least(wanted, n);
            },
            None => {
                assert forall|n: usize| !is_least(wanted, n) by {
                    if list@.contains(n) {
                        let j = choose|j: int| 0 <= j < list@.len() && list@[j] == n;
                        assert(!wanted(list@[j]));
                    }
                }
            },
        }
    }
    best
}

fn first_shared(a: &Vec<usize>, b: &Vec<usize>) -> (layer: Option<usize>)
    ensures
        layer == least(shared(a@, b@)),
{
    let ghost wanted = shared(a@, b@);
    let mut best: Option<usize> = None;
    let mut i: usize = 0;
    while i < a.len()
        invariant
            i <= a@.len(),
            wanted == shared(a@, b@),
            match best {
                Some(n) => wanted(n) && forall|j: int|
                    0 <= j < i && wanted(#[trigger] a@[j]) ==> n <= a@[j],
                None => forall|j: int| 0 <= j < i ==> !wanted(#[trigger] a@[j]),
            },
        decreases a@.len() - i,
    {
        let n: usize = a[i];
        proof {
            assert(a@.contains(a@[i as int]));
        }
        if list_contains(b, n) {
            match best {
                Some(m) => {
                    if n < m {
                        best = Some(n);
                    }
                },
                None => {
                    best = Some(n);
                },
            }
        }
        i = i + 1;
    }
    proof {
        match best {
            Some(n) => {
                assert forall|m: usize| m < n implies !#[trigger] wanted(m) by {
                    if a@.contains(m) {
                        let j = choose|j: int| 0 <= j < a@.len() && a@[j] == m;
                        assert(a@[j] == m);
                    }
                }
                lemma_least(wanted, n);
            },
            None => {
                assert forall|n: usize| !is_least(wanted, n) by {
                    if a@.contains(n) {
                        let j = choose|j: int| 0 <= j < a@.len() && a@[j] == n;
                        assert(!wanted(a@[j]));
                    }
                }
            },
        }
    }
    best
}

fn check_layer_list(field: &str, layers: &Option<Vec<usize>>, num_layers: usize) -> (valid: Result<
    (),
    ModelAdapterError,
>)
    ensures
        match valid {
            Ok(_) => layer_list_fault(field@, *layers, num_layers) is None,
            Err(e) => layer_list_fault(field@, *layers, num_layers) == Some(e@),
        },
{
    match layers {
        None => Err(
            ModelAdapterError::missing_field(
                "KimiLinearForCausalLM",
                cat2("linear_attn_config.", field).as_str(),
            ),
        ),
        Some(list) => {
            if has_duplicates(list) {
                return Err(
                    invalid(
                        cat3(
                            "linear_attn_config.",
                            field,
                            " contains duplicate layers",
                        ).as_str(),
                    ),
                );
            }
            match first_outside(list, num_layers) {
                Some(layer) => Err(
                    invalid(
                        cat4(
                            "linear_attn_config.",
                            field,
                            " contains out-of-range layer ",
                            decimal_usize(layer).as_str(),
                        ).as_str(),
                    ),
                ),
                None => Ok(()),
            }
        },
    }
}

fn every_layer_listed(a: &Vec<usize>, b: &Vec<usize>, num_layers: usize) -> (listed: bool)
    ensures
        listed == all_listed(a@, b@, num_layers),
{
    let mut n: usize = 0;
    while n < num_layers
        invariant
            n <= num_layers,
            forall|m: usize| 1 <= m <= n ==> #[trigger] a@.contains(m) || b@.contains(m),
        decreases num_layers - n,
    {
        n = n + 1;
        if !list_contains(a, n) && !list_contains(b, n) {
            return false;
        }
    }
    true
}

fn validate_layer_partition(linear: &KimiLinearAttentionConfig, num_layers: usize) -> (valid: Result<
    (),
    ModelAdapterError,
>)
    ensures
        match valid {
            Ok(_) => partition_fault(*linear, num_layers) is None,
            Err(e) => partition_fault(*linear, num_layers) == Some(e@),
        },
{
    check_layer_list("kda_layers", &linear.kda_layers, num_layers)?;
    check_layer_list("full_attn_layers", &linear.full_attn_layers, num_layers)?;
    match (&linear.kda_layers, &linear.full_attn_layers) {
        (Some(kda), Some(full)) => {
            if kda.len() == 0 || full.len() == 0 {
                return Err(
                    invalid(
                        "Kimi hybrid execution requires at least one KDA and one full-attention layer",
                    ),
                );
            }
            if let Some(layer) = first_shared(kda, full) {
                return Err(
                    invalid(
                        cat3(
                            "layer ",
                            decimal_usize(layer).as_str(),
                            " appears in both KDA and full-attention lists",
                        ).as_str(),
                    ),
                );
            }
            if !every_layer_listed(kda, full, num_layers) {
                return Err(
                    invalid(
                        "KDA and full-attention layer lists must partition every 1-based model layer",
                    ),
                );
            }
            Ok(())
        },
        _ => Ok(()),
    }
}

/// Why the linear attention of a configuration cannot be used.
pub open spec fn linear_fault(c: KimiLinearConfig) -> Option<Seq<char>> {
    let a = kimi();
    match c.linear_attn_config {
        None => Some(missing_field_message(a, "linear_attn_config"@)),
        Some(linear) => either(
            required_fault(a, "linear_attn_config.head_dim"@, linear.head_dim),
            either(
                required_fault(a, "linear_attn_config.num_heads"@, linear.num_heads),
                either(
                    required_fault(
                        a,
                        "linear_attn_config.short_conv_kernel_size"@,
                        linear.short_conv_kernel_size,
                    ),
                    partition_fault(linear, c.num_hidden_layers->0),
                ),
            ),
        ),
    }
}

/// Why the sizes of the projections of a configuration cannot be computed.
pub open spec fn projections_fault(c: KimiLinearConfig) -> Option<Seq<char>> {
    let a = kimi();
    let heads = c.num_attention_heads->0;
    let nope = c.qk_nope_head_dim->0;
    let rope = c.qk_rope_head_dim->0;
    let value = c.v_head_dim->0;
    let linear = c.linear_attn_config->0;
    either(
        sum_fault(a, nope, rope, "MLA query head"@),
        either(
            product_fault(a, heads, (nope + rope) as usize, "MLA query"@),
            either(
                sum_fault(a, nope, value, "MLA KV head"@),
                either(
                    product_fault(a, heads, (nope + value) as usize, "MLA expanded KV"@),
                    either(
                        product_fault(a, heads, value, "MLA output"@),
                        either(
                            product_fault(a, linear.num_heads->0, linear.head_dim->0, "KDA key"@),
                            either(
                                product_fault(
                                    a,
                                    linear.num_heads->0,
                                    linear.head_dim->0,
                                    "KDA value"@,
                                ),
                                sum_fault(a, c.kv_lora_rank->0, rope, "MLA compressed KV"@),
                            ),
                        ),
                    ),
                ),
            ),
        ),
    )
}

/// The sizes of the projections of multi-latent attention.
pub open spec fn mla_sizes(c: KimiLinearConfig) -> MlaSizes {
    let heads = c.num_attention_heads->0;
    MlaSizes {
        query: query_of(c.q_lora_rank),
        query_size: (heads * (c.qk_nope_head_dim->0 + c.qk_rope_head_dim->0)) as usize,
        compressed_kv_size: (c.kv_lora_rank->0 + c.qk_rope_head_dim->0) as usize,
        expanded_kv_size: (heads * (c.qk_nope_head_dim->0 + c.v_head_dim->0)) as usize,
        attention_output_size: (heads * c.v_head_dim->0) as usize,
        kv_lora_rank: c.kv_lora_rank->0,
    }
}

/// The sizes of the projections of key-gated delta attention.
pub open spec fn kda_sizes(c: KimiLinearConfig) -> KdaSizes {
    let linear = c.linear_attn_config->0;
    KdaSizes {
        key_size: (linear.num_heads->0 * linear.head_dim->0) as usize,
        value_size: (linear.num_heads->0 * linear.head_dim->0) as usize,
        key_head_dim: linear.head_dim->0,
        value_head_dim: linear.head_dim->0,
        num_heads: linear.num_heads->0,
        conv_kernel_dim: linear.short_conv_kernel_size->0,
    }
}

/// Which layers have experts, and what the others have.
pub open spec fn feed_forward_layout(c: KimiLinearConfig) -> FeedForwardLayout {
    FeedForwardLayout {
        first_dense_layer_count: or_else(c.first_k_dense_replace, 0),
        moe_layer_frequency: c.moe_layer_freq->0,
        dense_intermediate_size: c.intermediate_size->0,
        moe_config: MoeFeedForwardConfig {
            routed_expert_count: c.num_experts->0,
            experts_per_token: c.num_experts_per_token->0,
            expert_group_count: c.num_expert_group->0,
            selected_expert_group_count: c.topk_group->0,
            shared_expert_count: or_else(c.num_shared_experts, 0),
            expert_intermediate_size: c.moe_intermediate_size->0,
            renormalize: c.moe_renormalize != Some(false),
            router_activation: activation_named(optional(c.moe_router_activation_func)->0)->0,
            routed_scaling_factor: c.routed_scaling_factor->0.narrow,
        },
        has_correction_bias: true,
    }
}

/// Why the shared experts of a configuration cannot be described.
pub open spec fn shared_fault(c: KimiLinearConfig) -> Option<Seq<char>> {
    let layout = feed_forward_layout(c);
    if layout.moe_config.shared_expert_count > 0 && layout.moe_config.expert_intermediate_size
        * layout.moe_config.shared_expert_count > usize::MAX && exists|l: nat|
        l < c.num_hidden_layers->0 && #[trigger] layout.is_moe(l) {
        wrong("shared expert intermediate size overflowed"@)
    } else {
        None
    }
}

/// Whether the names are those of key-gated delta attention at `prefix`.
pub open spec fn names_kda(names: KeyGatedDeltaWeightNames, prefix: Seq<char>) -> bool {
    &&& names.a_log@ == prefix + ".self_attn.A_log"@
    &&& names.dt_bias@ == prefix + ".self_attn.dt_bias"@
    &&& names.query_weight@ == prefix + ".self_attn.q_proj.weight"@
    &&& names.key_weight@ == prefix + ".self_attn.k_proj.weight"@
    &&& names.value_weight@ == prefix + ".self_attn.v_proj.weight"@
    &&& names.beta_weight@ == prefix + ".self_attn.b_proj.weight"@
    &&& names.forget_a_weight@ == prefix + ".self_attn.f_a_proj.weight"@
    &&& names.forget_b_weight@ == prefix + ".self_attn.f_b_proj.weight"@
    &&& names.gate_a_weight@ == prefix + ".self_attn.g_a_proj.weight"@
    &&& names.gate_b_weight@ == prefix + ".self_attn.g_b_proj.weight"@
    &&& names.query_conv_weight@ == prefix + ".self_attn.q_conv1d.weight"@
    &&& names.key_conv_weight@ == prefix + ".self_attn.k_conv1d.weight"@
    &&& names.value_conv_weight@ == prefix + ".self_attn.v_conv1d.weight"@
    &&& names.output_norm@ == prefix + ".self_attn.o_norm.weight"@
    &&& names.output_weight@ == prefix + ".self_attn.o_proj.weight"@
}

fn kda_names(prefix: &str) -> (names: KeyGatedDeltaWeightNames)
    ensures
        names_kda(names, prefix@),
{
    KeyGatedDeltaWeightNames {
        a_log: cat2(prefix, ".self_attn.A_log"),
        dt_bias: cat2(prefix, ".self_attn.dt_bias"),
        query_weight: cat2(prefix, ".self_attn.q_proj.weight"),
        key_weight: cat2(prefix, ".self_attn.k_proj.weight"),
        value_weight: cat2(prefix, ".self_attn.v_proj.weight"),
        beta_weight: cat2(prefix, ".self_attn.b_proj.weight"),
        forget_a_weight: cat2(prefix, ".self_attn.f_a_proj.weight"),
        forget_b_weight: cat2(prefix, ".self_attn.f_b_proj.weight"),
        gate_a_weight: cat2(prefix, ".self_attn.g_a_proj.weight"),
        gate_b_weight: cat2(prefix, ".self_attn.g_b_proj.weight"),
        query_conv_weight: cat2(prefix, ".self_attn.q_conv1d.weight"),
        key_conv_weight: cat2(prefix, ".self_attn.k_conv1d.weight"),
        value_conv_weight: cat2(prefix, ".self_attn.v_conv1d.weight"),
        output_norm: cat2(prefix, ".self_attn.o_norm.weight"),
        output_weight: cat2(prefix, ".self_attn.o_proj.weight"),
    }
}

/// The number of the first `n` layers that are not in the list of linear layers.
pub open spec fn full_layers_before(kda: Seq<usize>, n: nat) -> nat
    decreases n,
{
    if n == 0 {
        0
    } else if kda.contains(n as usize) {
        full_layers_before(kda, (n - 1) as nat)
    } else {
        full_layers_before(kda, (n - 1) as nat) + 1
    }
}

/// Whether the names are those of a layer; each kind of layer is counted by itself.
pub open spec fn names_kimi_layer(
    names: HybridDecoderLayerWeightNames,
    layer_id: nat,
    kda: Seq<usize>,
    query: MultiLatentQueryConfig,
    layout: FeedForwardLayout,
) -> bool {
    let prefix = layer_prefix("model"@, layer_id);
    &&& names.input_norm@ == prefix + ".input_layernorm.weight"@
    &&& names.post_attention_norm@ == prefix + ".post_attention_layernorm.weight"@
    &&& match names.mixer {
        HybridDecoderLayerKind::KeyGatedDelta { state_layer_index, weights } => {
            &&& kda.contains((layer_id + 1) as usize)
            &&& state_layer_index == layer_id - full_layers_before(kda, layer_id)
            &&& names_kda(weights, prefix)
        },
        HybridDecoderLayerKind::MultiLatentAttention { cache_layer_index, weights } => {
            &&& !kda.contains((layer_id + 1) as usize)
            &&& cache_layer_index == full_layers_before(kda, layer_id)
            &&& names_mla(weights, prefix, query)
        },
        _ => false,
    }
    &&& names_layer_feed_forward(names.feed_forward, prefix, layer_id, layout)
}

/// Whether the names are those of a decoder.
pub open spec fn names_kimi_decoder(
    names: HybridDecoderWeightNames,
    num_layers: nat,
    kda: Seq<usize>,
    query: MultiLatentQueryConfig,
    layout: FeedForwardLayout,
    tied_embeddings: bool,
) -> bool {
    &&& names.token_embeddings@ == "model.embed_tokens.weight"@
    &&& names.final_norm@ == "model.norm.weight"@
    &&& named(names.lm_head) == name_if(!tied_embeddings, "lm_head.weight"@)
    &&& names.layers@.len() == num_layers
    &&& forall|i: int|
        0 <= i < num_layers ==> names_kimi_layer(
            #[trigger] names.layers@[i],
            i as nat,
            kda,
            query,
            layout,
        )
}

fn weight_names(
    num_layers: usize,
    kda_layers: &Vec<usize>,
    layout: &FeedForwardLayout,
    query: MultiLatentQueryConfig,
    tied_embeddings: bool,
) -> (names: HybridDecoderWeightNames)
    requires
        layout.moe_layer_frequency > 0,
    ensures
        names_kimi_decoder(
            names,
            num_layers as nat,
            kda_layers@,
            query,
            *layout,
            tied_embeddings,
        ),
{
    let mut layers: Vec<HybridDecoderLayerWeightNames> = Vec::new();
    let mut cache_layer_index: usize = 0;
    let mut state_layer_index: usize = 0;
    let mut i: usize = 0;
    while i < num_layers
        invariant
            i <= num_layers,
            layout.moe_layer_frequency > 0,
            layers@.len() == i,
            cache_layer_index + state_layer_index == i,
            cache_layer_index == full_layers_before(kda_layers@, i as nat),
            forall|j: int|
                0 <= j < i ==> names_kimi_layer(
                    #[trigger] layers@[j],
                    j as nat,
                    kda_layers@,
                    query,
                    *layout,
                ),
        decreases num_layers - i,
    {
        let prefix = prefix_of_layer("model", i);
        let at = prefix.as_str();
        let mixer = if list_contains(kda_layers, i + 1) {
            let index: usize = state_layer_index;
            state_layer_index = state_layer_index + 1;
            HybridDecoderLayerKind::KeyGatedDelta {
                state_layer_index: index,
                weights: kda_names(at),
            }
        } else {
            let index: usize = cache_layer_index;
            cache_layer_index = cache_layer_index + 1;
            HybridDecoderLayerKind::MultiLatentAttention {
                cache_layer_index: index,
                weights: mla_names(at, query),
            }
        };
        layers.push(
            HybridDecoderLayerWeightNames {
                input_norm: cat2(at, ".input_layernorm.weight"),
                mixer,
                post_attention_norm: cat2(at, ".post_attention_layernorm.weight"),
                feed_forward: layer_feed_forward(at, i, layout),
            },
        );
        i = i + 1;
    }
    let lm_head = if tied_embeddings {
        None
    } else {
        Some("lm_head.weight".to_owned())
    };
    HybridDecoderWeightNames {
        token_embeddings: "model.embed_tokens.weight".to_owned(),
        final_norm: "model.norm.weight".to_owned(),
        lm_head,
        layers,
    }
}

/// How a model of such a configuration is run.
pub open spec fn kimi_execution(c: KimiLinearConfig) -> ModelExecutionArchitecture {
    let linear = c.linear_attn_config->0;
    ModelExecutionArchitecture::Transformer {
        attention: AttentionArchitecture::HybridMultiLatent {
            num_attention_heads: c.num_attention_heads->0,
            qk_nope_head_dim: c.qk_nope_head_dim->0,
            qk_rope_head_dim: c.qk_rope_head_dim->0,
            value_head_dim: c.v_head_dim->0,
            linear_num_heads: linear.num_heads->0,
            linear_key_head_dim: linear.head_dim->0,
            linear_value_head_dim: linear.head_dim->0,
        },
        feed_forward: FeedForwardArchitecture::MixtureOfExperts {
            routed_expert_count: c.num_experts->0,
            experts_per_token: c.num_experts_per_token->0,
            shared_expert_count: or_else(c.num_shared_experts, 0),
            expert_intermediate_size: c.moe_intermediate_size->0,
        },
    }
}

/// Whether a plan is that of a configuration.
pub open spec fn kimi_plan_of(plan: HybridDecoderExecutionPlan, c: KimiLinearConfig) -> bool {
    let linear = c.linear_attn_config->0;
    &&& plan.vocab_size == c.vocab_size->0
    &&& plan.hidden_size == c.hidden_size->0
    &&& plan.max_position_embeddings == c.model_max_length->0
    &&& plan.rms_norm_eps == c.rms_norm_eps->0.narrow
    &&& plan.rope_theta == c.rope_theta->0.narrow
    &&& plan.normalization == DecoderNormalization::Rms
    &&& plan.full_attention == (HybridFullAttentionConfig::MultiLatent {
        num_attention_heads: c.num_attention_heads->0,
        query: query_of(c.q_lora_rank),
        kv_lora_rank: c.kv_lora_rank->0,
        qk_nope_head_dim: c.qk_nope_head_dim->0,
        qk_rope_head_dim: c.qk_rope_head_dim->0,
        value_head_dim: c.v_head_dim->0,
        skip_rope: true,
        rotary_embedding: Some(
            RotaryEmbeddingConfig {
                theta: c.rope_theta->0.narrow,
                style: RotaryEmbeddingStyle::Interleaved,
            },
        ),
    })
    &&& plan.linear_attention == Some(
        HybridLinearAttentionConfig::KeyGatedDelta {
            conv_kernel_dim: linear.short_conv_kernel_size->0,
            key_head_dim: linear.head_dim->0,
            value_head_dim: linear.head_dim->0,
            num_heads: linear.num_heads->0,
        },
    )
    &&& plan.activation == DenseDecoderActivation::Silu
    &&& names_kimi_decoder(
        plan.weights,
        c.num_hidden_layers->0 as nat,
        linear.kda_layers->0@,
        query_of(c.q_lora_rank),
        feed_forward_layout(c),
        c.tie_word_embeddings == Some(true),
    )
}

/// Why no definition can be made of a configuration.
pub open spec fn kimi_fault(c: KimiLinearConfig, rotary: Result<(), String>) -> Option<Seq<char>> {
    either(
        features_fault(c),
        either(
            sizes_fault(c),
            either(
                layout_fault(c),
                either(
                    router_fault(c),
                    either(
                        rotary_fault(rotary),
                        either(
                            linear_fault(c),
                            either(projections_fault(c), shared_fault(c)),
                        ),
                    ),
                ),
            ),
        ),
    )
}

/// Whether a definition is that of a configuration.
pub open spec fn kimi_definition_of(
    definition: ModelDefinition,
    hf_config: HfModelConfig,
    c: KimiLinearConfig,
) -> bool {
    let plan = definition.hybrid_decoder->0;
    let layers = plan.weights.layers@;
    &&& definition.wf()
    &&& bare_definition(
        definition,
        kimi(),
        hf_config,
        kimi_execution(c),
        seq![RuntimeDtype::F32, RuntimeDtype::Bf16],
        Some(
            latent_cache(
                c.linear_attn_config->0.full_attn_layers->0@.len() as usize,
                c.kv_lora_rank->0,
                c.qk_rope_head_dim->0,
            ),
        ),
    )
    &&& definition.vocab_size == c.vocab_size
    &&& definition.max_context_length == c.model_max_length
    &&& definition.cache_architecture == hybrid_cache(plan, ModelCacheArchitecture::PagedKv)
    &&& definition.recurrent_state == hybrid_state(plan)
    &&& definition.dense_decoder is None
    &&& definition.hybrid_decoder is Some
    &&& kimi_plan_of(plan, c)
    &&& definition.checkpoint_topology@ == (Topology {
        tensors: mla_tensors(plan, mla_sizes(c), Some(kda_sizes(c)), layers.len()),
        experts: places(expert_coordinates(layers, layers.len())),
        weights_per_group: 3,
    })
}

proof fn lemma_layers_fault(
    layers: Seq<HybridDecoderLayerWeightNames>,
    c: KimiLinearConfig,
    wrong_mixer: Seq<char>,
    n: nat,
)
    requires
        n <= layers.len(),
        forall|i: int|
            0 <= i < layers.len() ==> names_kimi_layer(
                #[trigger] layers[i],
                i as nat,
                c.linear_attn_config->0.kda_layers->0@,
                query_of(c.q_lora_rank),
                feed_forward_layout(c),
            ),
    ensures
        ({
            let moe = feed_forward_layout(c).moe_config;
            let wide = moe.shared_expert_count > 0 && moe.expert_intermediate_size
                * moe.shared_expert_count > usize::MAX;
            let fault = mla_layers_fault(layers, query_of(c.q_lora_rank), true, wrong_mixer, n);
            &&& fault is Some ==> fault->0 == "shared expert intermediate size overflowed"@
            &&& fault is Some <==> wide && exists|l: nat|
                l < n && #[trigger] feed_forward_layout(c).is_moe(l)
        }),
    decreases n,
{
    if n > 0 {
        lemma_layers_fault(layers, c, wrong_mixer, (n - 1) as nat);
        assert(names_kimi_layer(
            layers[n - 1],
            (n - 1) as nat,
            c.linear_attn_config->0.kda_layers->0@,
            query_of(c.q_lora_rank),
            feed_forward_layout(c),
        ));
        let layout = feed_forward_layout(c);
        if exists|l: nat| l < n && #[trigger] layout.is_moe(l) {
            let l = choose|l: nat| l < n && #[trigger] layout.is_moe(l);
            if l < n - 1 {
                assert(l < (n - 1) as nat && layout.is_moe(l));
            }
        }
        if layout.is_moe((n - 1) as nat) {
            assert(((n - 1) as nat) < n && layout.is_moe((n - 1) as nat));
        }
    }
}

fn compute_mla_sizes(config: &KimiLinearConfig, query: MultiLatentQueryConfig, heads: usize,
    kv_lora_rank: usize, nope: usize, rope: usize, value: usize, linear_heads: usize,
    linear_dim: usize, kernel: usize) -> (sizes: Result<(MlaSizes, KdaSizes), ModelAdapterError>)
    requires
        config.num_attention_heads == Some(heads),
        config.kv_lora_rank == Some(kv_lora_rank),
        config.qk_nope_head_dim == Some(nope),
        config.qk_rope_head_dim == Some(rope),
        config.v_head_dim == Some(value),
        query == query_of(config.q_lora_rank),
        config.linear_attn_config is Some,
        config.linear_attn_config->0.num_heads == Some(linear_heads),
        config.linear_attn_config->0.head_dim == Some(linear_dim),
        config.linear_attn_config->0.short_conv_kernel_size == Some(kernel),
    ensures
        match sizes {
            Ok(s) => projections_fault(*config) is None && s.0 == mla_sizes(*config) && s.1
                == kda_sizes(*config),
            Err(e) => projections_fault(*config) == Some(e@),
        },
{
    let a = "KimiLinearForCausalLM";
    let query_head: usize = checked_add(a, nope, rope, "MLA query head")?;
    let query_size: usize = checked_product(a, heads, query_head, "MLA query")?;
    let expanded_head: usize = checked_add(a, nope, value, "MLA KV head")?;
    let expanded_kv_size: usize = checked_product(a, heads, expanded_head, "MLA expanded KV")?;
    let attention_output_size: usize = checked_product(a, heads, value, "MLA output")?;
    let key_size: usize = checked_product(a, linear_heads, linear_dim, "KDA key")?;
    let value_size: usize = checked_product(a, linear_heads, linear_dim, "KDA value")?;
    let compressed_kv_size: usize = checked_add(a, kv_lora_rank, rope, "MLA compressed KV")?;
    Ok(
        (
            MlaSizes {
                query,
                query_size,
                compressed_kv_size,
                expanded_kv_size,
                attention_output_size,
                kv_lora_rank,
            },
            KdaSizes {
                key_size,
                value_size,
                key_head_dim: linear_dim,
                value_head_dim: linear_dim,
                num_heads: linear_heads,
                conv_kernel_dim: kernel,
            },
        ),
    )
}

/// The definition of Kimi Linear. `config` is what was read of the configuration document, or why it
/// could not be read; `rotary` is what the kernel says of the rotary embedding of the base and the
/// width that the configuration gives.
#[verifier::rlimit(40)]
pub fn build_kimi_linear_definition(
    hf_config: &HfModelConfig,
    config: Result<KimiLinearConfig, String>,
    rotary: Result<(), String>,
) -> (definition: Result<ModelDefinition, ModelAdapterError>)
    ensures
        match config {
            Ok(c) => match definition {
                Ok(d) => kimi_fault(c, rotary) is None && kimi_definition_of(d, *hf_config, c),
                Err(e) => kimi_fault(c, rotary) == Some(e@),
            },
            Err(message) => definition is Err && Some(definition->Err_0@) == wrong(
                "invalid Kimi Linear config document: "@ + message@,
            ),
        },
{
    let a = "KimiLinearForCausalLM";
    let config = match config {
        Ok(config) => config,
        Err(message) => {
            return Err(
                invalid(
                    cat2("invalid Kimi Linear config document: ", message.as_str()).as_str(),
                ),
            );
        },
    };
    check_features(&config)?;
    let vocab_size: usize = required_usize(a, "vocab_size", config.vocab_size)?;
    let hidden_size: usize = required_usize(a, "hidden_size", config.hidden_size)?;
    let query = query_config(a, config.q_lora_rank)?;
    let dense_intermediate_size: usize = required_usize(
        a,
        "intermediate_size",
        config.intermediate_size,
    )?;
    let num_layers: usize = required_usize(a, "num_hidden_layers", config.num_hidden_layers)?;
    let heads: usize = required_usize(a, "num_attention_heads", config.num_attention_heads)?;
    let kv_heads: usize = number_or(config.num_key_value_heads, heads);
    if kv_heads != heads {
        return Err(
            invalid(
                cat5(
                    "num_key_value_heads ",
                    decimal_usize(kv_heads).as_str(),
                    " must equal num_attention_heads ",
                    decimal_usize(heads).as_str(),
                    " for Kimi MLA",
                ).as_str(),
            ),
        );
    }
    let kv_lora_rank: usize = required_usize(a, "kv_lora_rank", config.kv_lora_rank)?;
    let nope: usize = required_usize(a, "qk_nope_head_dim", config.qk_nope_head_dim)?;
    let rope: usize = required_usize(a, "qk_rope_head_dim", config.qk_rope_head_dim)?;
    let value: usize = required_usize(a, "v_head_dim", config.v_head_dim)?;
    let routed: usize = required_usize(a, "num_experts", config.num_experts)?;
    let chosen: usize = required_usize(
        a,
        "num_experts_per_token",
        config.num_experts_per_token,
    )?;
    if chosen > routed {
        return Err(
            invalid(
                cat4(
                    "num_experts_per_token ",
                    decimal_usize(chosen).as_str(),
                    " exceeds num_experts ",
                    decimal_usize(routed).as_str(),
                ).as_str(),
            ),
        );
    }
    let expert_intermediate_size: usize = required_usize(
        a,
        "moe_intermediate_size",
        config.moe_intermediate_size,
    )?;
    let shared_expert_count: usize = number_or(config.num_shared_experts, 0);
    let first_dense_layer_count: usize = number_or(config.first_k_dense_replace, 0);
    if first_dense_layer_count > num_layers {
        return Err(invalid("first_k_dense_replace exceeds num_hidden_layers"));
    }
    let moe_layer_frequency: usize = required_usize(a, "moe_layer_freq", config.moe_layer_freq)?;
    let groups: usize = required_usize(a, "num_expert_group", config.num_expert_group)?;
    let selected: usize = required_usize(a, "topk_group", config.topk_group)?;
    if routed % groups != 0 || selected > groups {
        return Err(
            invalid(
                "num_experts must divide evenly into num_expert_group and topk_group must not exceed it",
            ),
        );
    }
    if let Some(grouped) = config.use_grouped_topk {
        if !grouped && (groups != 1 || selected != 1) {
            return Err(invalid("use_grouped_topk=false is only valid with one expert group"));
        }
    }
    let activation = router_activation(
        a,
        &config.moe_router_activation_func,
        "unsupported MoE router activation ",
        "moe_router_activation_func",
    )?;
    let routed_scaling_factor: u32 = positive_float(
        a,
        "routed_scaling_factor",
        config.routed_scaling_factor,
    )?;
    let rms_norm_eps: u32 = positive_float(a, "rms_norm_eps", config.rms_norm_eps)?;
    let rope_theta: u32 = positive_float(a, "rope_theta", config.rope_theta)?;
    let max_position_embeddings: usize = required_usize(
        a,
        "model_max_length",
        config.model_max_length,
    )?;
    if let Err(message) = &rotary {
        return Err(invalid(message.as_str()));
    }
    let linear = match &config.linear_attn_config {
        Some(linear) => linear,
        None => {
            return Err(ModelAdapterError::missing_field(a, "linear_attn_config"));
        },
    };
    let linear_dim: usize = required_usize(a, "linear_attn_config.head_dim", linear.head_dim)?;
    let linear_heads: usize = required_usize(a, "linear_attn_config.num_heads", linear.num_heads)?;
    let kernel: usize = required_usize(
        a,
        "linear_attn_config.short_conv_kernel_size",
        linear.short_conv_kernel_size,
    )?;
    validate_layer_partition(linear, num_layers)?;
    let (kda_layers, full_attention_layers) = match (
        &linear.kda_layers,
        &linear.full_attn_layers,
    ) {
        (Some(kda), Some(full)) => (kda, full),
        _ => {
            return Err(ModelAdapterError::missing_field(a, "linear_attn_config"));
        },
    };
    let layout = FeedForwardLayout {
        first_dense_layer_count,
        moe_layer_frequency,
        dense_intermediate_size,
        moe_config: MoeFeedForwardConfig {
            routed_expert_count: routed,
            experts_per_token: chosen,
            expert_group_count: groups,
            selected_expert_group_count: selected,
            shared_expert_count,
            expert_intermediate_size,
            renormalize: match config.moe_renormalize {
                Some(renormalize) => renormalize,
                None => true,
            },
            router_activation: activation,
            routed_scaling_factor,
        },
        has_correction_bias: true,
    };
    let tied = match config.tie_word_embeddings {
        Some(tied) => tied,
        None => false,
    };
    let plan = HybridDecoderExecutionPlan {
        vocab_size,
        hidden_size,
        max_position_embeddings,
        rms_norm_eps,
        rope_theta,
        normalization: DecoderNormalization::Rms,
        full_attention: HybridFullAttentionConfig::MultiLatent {
            num_attention_heads: heads,
            query,
            kv_lora_rank,
            qk_nope_head_dim: nope,
            qk_rope_head_dim: rope,
            value_head_dim: value,
            skip_rope: true,
            rotary_embedding: Some(
                RotaryEmbeddingConfig {
                    theta: rope_theta,
                    style: RotaryEmbeddingStyle::Interleaved,
                },
            ),
        },
        linear_attention: Some(
            HybridLinearAttentionConfig::KeyGatedDelta {
                conv_kernel_dim: kernel,
                key_head_dim: linear_dim,
                value_head_dim: linear_dim,
                num_heads: linear_heads,
            },
        ),
        activation: DenseDecoderActivation::Silu,
        weights: weight_names(num_layers, kda_layers, &layout, query, tied),
    };
    let (mla, kda) = compute_mla_sizes(
        &config,
        query,
        heads,
        kv_lora_rank,
        nope,
        rope,
        value,
        linear_heads,
        linear_dim,
        kernel,
    )?;
    proof {
        lemma_layers_fault(
            plan.weights.layers@,
            config,
            "Kimi checkpoint topology received an incompatible mixer"@,
            plan.weights.layers@.len(),
        );
    }
    let topology = mla_checkpoint_topology(
        a,
        &plan,
        &mla,
        &Some(kda),
        "Kimi checkpoint topology received an incompatible mixer",
    )?;
    let width: usize = checked_add(a, kv_lora_rank, rope, "MLA key width")?;
    let cache = match KvCacheModelLayout::tensor_pair(
        full_attention_layers.len(),
        1,
        width,
        1,
        kv_lora_rank,
    ) {
        Ok(cache) => cache,
        Err(error) => {
            return Err(invalid(error.to_string().as_str()));
        },
    };
    let execution = ModelExecutionArchitecture::Transformer {
        attention: AttentionArchitecture::HybridMultiLatent {
            num_attention_heads: heads,
            qk_nope_head_dim: nope,
            qk_rope_head_dim: rope,
            value_head_dim: value,
            linear_num_heads: linear_heads,
            linear_key_head_dim: linear_dim,
            linear_value_head_dim: linear_dim,
        },
        feed_forward: FeedForwardArchitecture::MixtureOfExperts {
            routed_expert_count: routed,
            experts_per_token: chosen,
            shared_expert_count,
            expert_intermediate_size,
        },
    };
    let mut dtypes: Vec<RuntimeDtype> = Vec::new();
    dtypes.push(RuntimeDtype::F32);
    dtypes.push(RuntimeDtype::Bf16);
    proof {
        assert(dtypes@ =~= seq![RuntimeDtype::F32, RuntimeDtype::Bf16]);
    }
    let bare = ModelDefinition::new(a, hf_config, execution, dtypes, Some(cache));
    Ok(
        bare.with_serving_metadata(vocab_size, max_position_embeddings).with_checkpoint_topology(
            topology,
        ).with_hybrid_decoder(plan),
    )
}

} // verus!
