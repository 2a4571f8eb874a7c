//! Models of multi-latent attention and mixtures of experts: DeepSeek V3 and V4, GLM and Kimi K2.5.
use vstd::prelude::*;
use vstd::string::*;

use crate::checkpoint::{places, Topology};
use crate::debug_text::{optional, show_option, shown_option};
use crate::decoder_plans::{
    cache_layers_are_layers, layer_prefix, name_if, named, prefix_of_layer, DecoderNormalization,
    HybridDecoderExecutionPlan, HybridDecoderLayerKind, HybridDecoderLayerWeightNames,
    HybridDecoderWeightNames, HybridFullAttentionConfig, MoeFeedForwardConfig,
    MultiLatentQueryConfig, RouterActivation,
};
use crate::json::Json;
use crate::kv_cache::{KvCacheModelLayout, KvCacheTensorGeometry};
use crate::mla_plans::{
    expert_coordinates, layer_feed_forward, mla_checkpoint_topology, mla_layers_fault, mla_names,
    mla_tensors, names_layer_feed_forward, names_mla, FeedForwardLayout, KdaSizes, MlaSizes,
};
use crate::model_config::HfModelConfig;
use crate::model_definition::{bare_definition, ModelDefinition};
use crate::models::{
    checked_add, checked_product, invalid_message, missing_field_message, positive_fault,
    positive_float, product_fault, required_fault, required_usize, sum_fault,
    AttentionArchitecture, ConfigNumber, DenseDecoderActivation, FeedForwardArchitecture,
    ModelAdapterError, ModelCacheArchitecture, ModelExecutionArchitecture, RuntimeDtype,
};
use crate::payload::either;
use crate::text::{cat2, cat5, decimal, decimal_usize, same_text};

verus! {

/// The configuration of a model of multi-latent attention and a mixture of experts.
#[derive(Debug)]
pub struct MlaMoeConfig {
    pub vocab_size: Option<usize>,
    pub max_position_embeddings: Option<usize>,
    pub num_hidden_layers: Option<usize>,
    pub hidden_size: Option<usize>,
    pub intermediate_size: Option<usize>,
    pub num_attention_heads: Option<usize>,
    pub q_lora_rank: Option<usize>,
    pub kv_lora_rank: Option<usize>,
    pub qk_nope_head_dim: Option<usize>,
    pub qk_rope_head_dim: Option<usize>,
    pub v_head_dim: Option<usize>,
    pub n_routed_experts: Option<usize>,
    pub n_shared_experts: Option<usize>,
    pub num_experts_per_tok: Option<usize>,
    pub moe_intermediate_size: Option<usize>,
    pub first_k_dense_replace: Option<usize>,
    pub moe_layer_freq: Option<usize>,
    pub hc_mult: Option<usize>,
    pub n_group: Option<usize>,
    pub topk_group: Option<usize>,
    pub norm_topk_prob: Option<bool>,
    pub routed_scaling_factor: Option<ConfigNumber>,
    pub scoring_func: Option<String>,
    pub topk_method: Option<String>,
    pub rms_norm_eps: Option<ConfigNumber>,
    pub rope_theta: Option<ConfigNumber>,
    pub rope_scaling: Option<Json>,
    pub hidden_act: Option<String>,
    pub tie_word_embeddings: Option<bool>,
    pub attention_bias: Option<bool>,
    pub num_nextn_predict_layers: Option<usize>,
    pub quantization_config: Option<Json>,
}

/// A number, or another where it is missing.
pub open spec fn or_else(value: Option<usize>, other: usize) -> usize {
    match value {
        Some(n) => n,
        None => other,
    }
}

/// A number, or another where it is missing.
pub fn number_or(value: Option<usize>, other: usize) -> (n: usize)
    ensures
        n == or_else(value, other),
{
    match value {
        Some(n) => n,
        None => other,
    }
}

/// Whether a document is given and not null.
pub open spec fn given(document: Option<Json>) -> bool {
    document is Some && !(document->0@ is Null)
}

/// Whether a document is given and not null.
pub fn is_given(document: &Option<Json>) -> (present: bool)
    ensures
        present == given(*document),
{
    match document {
        Some(value) => !value.is_null(),
        None => false,
    }
}

impl MlaMoeConfig {
    /// Whether a layer has experts.
    pub open spec fn moe_layer(self, layer_id: nat, num_layers: nat) -> bool {
        let first_dense = or_else(self.first_k_dense_replace, 0);
        let frequency = or_else(self.moe_layer_freq, 1);
        layer_id < num_layers && self.n_routed_experts is Some && frequency > 0 && layer_id
            >= first_dense && layer_id % frequency as nat == 0
    }

    /// Whether a layer has experts.
    pub fn is_moe_layer(&self, layer_id: usize, num_layers: usize) -> (moe: bool)
        ensures
            moe == self.moe_layer(layer_id as nat, num_layers as nat),
    {
        if layer_id >= num_layers || self.n_routed_experts.is_none() {
            return false;
        }
        let first_dense: usize = number_or(self.first_k_dense_replace, 0);
        let frequency: usize = number_or(self.moe_layer_freq, 1);
        frequency > 0 && layer_id >= first_dense && layer_id % frequency == 0
    }
}

/// How a model of this kind is named, and where its weights are.
#[derive(Clone, Copy, Debug)]
pub struct DeepSeekV3DefinitionSpec {
    pub architecture: &'static str,
    pub model_prefix: &'static str,
    pub lm_head: &'static str,
}

/// Why a feature of a configuration cannot be used.
pub open spec fn features_fault(architecture: Seq<char>, config: MlaMoeConfig) -> Option<
    Seq<char>,
> {
    if optional(config.hidden_act) != Some("silu"@) {
        Some(
            invalid_message(
                architecture,
                "hidden_act must be silu; found "@ + shown_option(optional(config.hidden_act)),
            ),
        )
    } else if config.attention_bias == Some(true) {
        Some(
            invalid_message(
                architecture,
                "attention_bias=true is not implemented by the shared MLA component"@,
            ),
        )
    } else if given(config.rope_scaling) {
        Some(
            invalid_message(
                architecture,
                "rope_scaling/YaRN is not implemented by the shared MLA component"@,
            ),
        )
    } else if given(config.quantization_config) {
        Some(
            invalid_message(
                architecture,
                "quantized DeepSeek/Kimi checkpoints are not implemented; an unquantized checkpoint is required"@,
            ),
        )
    } else if or_else(config.num_nextn_predict_layers, 0) != 0 {
        Some(invalid_message(architecture, "next-token prediction layers are not implemented"@))
    } else {
        None
    }
}

fn reject_unsupported_deepseek_v3_features(architecture: &str, config: &MlaMoeConfig) -> (valid:
    Result<(), ModelAdapterError>)
    ensures
        match valid {
            Ok(_) => features_fault(architecture@, *config) is None,
            Err(e) => features_fault(architecture@, *config) == Some(e@),
        },
{
    let silu = match &config.hidden_act {
        Some(name) => same_text(name.as_str(), "silu"),
        None => false,
    };
    if !silu {
        let text = cat2(
            "hidden_act must be silu; found ",
            show_option(&config.hidden_act).as_str(),
        );
        return Err(ModelAdapterError::invalid(architecture, text.as_str()));
    }
    if let Some(biased) = config.attention_bias {
        if biased {
            return Err(
                ModelAdapterError::invalid(
                    architecture,
                    "attention_bias=true is not implemented by the shared MLA component",
                ),
            );
        }
    }
    if is_given(&config.rope_scaling) {
        return Err(
            ModelAdapterError::invalid(
                architecture,
                "rope_scaling/YaRN is not implemented by the shared MLA component",
            ),
        );
    }
    if is_given(&config.quantization_config) {
        return Err(
            ModelAdapterError::invalid(
                architecture,
                "quantized DeepSeek/Kimi checkpoints are not implemented; an unquantized checkpoint is required",
            ),
        );
    }
    if number_or(config.num_nextn_predict_layers, 0) != 0 {
        return Err(
            ModelAdapterError::invalid(
                architecture,
                "next-token prediction layers are not implemented",
            ),
        );
    }
    Ok(())
}

/// Why the rank of the queries cannot be used.
pub open spec fn query_rank_fault(architecture: Seq<char>, rank: Option<usize>) -> Option<
    Seq<char>,
> {
    if rank == Some(0usize) {
        Some(invalid_message(architecture, "q_lora_rank must be non-zero when present"@))
    } else {
        None
    }
}

/// How the queries are projected.
pub open spec fn query_of(rank: Option<usize>) -> MultiLatentQueryConfig {
    match rank {
        Some(rank) => MultiLatentQueryConfig::LowRank { rank },
        None => MultiLatentQueryConfig::Direct,
    }
}

/// How the queries are projected.
pub fn query_config(architecture: &str, rank: Option<usize>) -> (query: Result<
    MultiLatentQueryConfig,
    ModelAdapterError,
>)
    ensures
        match query {
            Ok(q) => query_rank_fault(architecture@, rank) is None && q == query_of(rank),
            Err(e) => query_rank_fault(architecture@, rank) == Some(e@),
        },
{
    match rank {
        Some(rank) => if rank == 0 {
            Err(
                ModelAdapterError::invalid(
                    architecture,
                    "q_lora_rank must be non-zero when present",
                ),
            )
        } else {
            Ok(MultiLatentQueryConfig::LowRank { rank })
        },
        None => Ok(MultiLatentQueryConfig::Direct),
    }
}

/// How a router turns its logits into scores, by name.
pub open spec fn activation_named(name: Seq<char>) -> Option<RouterActivation> {
    if name == "sigmoid"@ {
        Some(RouterActivation::Sigmoid)
    } else if name == "softmax"@ {
        Some(RouterActivation::Softmax)
    } else {
        None
    }
}

/// How a router turns its logits into scores, by name.
pub fn parse_activation(name: &str) -> (activation: Option<RouterActivation>)
    ensures
        activation == activation_named(name@),
{
    if same_text(name, "sigmoid") {
        Some(RouterActivation::Sigmoid)
    } else if same_text(name, "softmax") {
        Some(RouterActivation::Softmax)
    } else {
        None
    }
}

/// Why the name of an activation cannot be used.
pub open spec fn activation_name_fault(
    architecture: Seq<char>,
    name: Option<Seq<char>>,
    unsupported: Seq<char>,
    field: Seq<char>,
) -> Option<Seq<char>> {
    match name {
        Some(text) => if activation_named(text) is Some {
            None
        } else {
            Some(invalid_message(architecture, unsupported + text))
        },
        None => Some(missing_field_message(architecture, field)),
    }
}

/// The activation that a name stands for.
pub fn router_activation(
    architecture: &str,
    name: &Option<String>,
    unsupported: &str,
    field: &str,
) -> (activation: Result<RouterActivation, ModelAdapterError>)
    ensures
        match activation {
            Ok(a) => activation_name_fault(
                architecture@,
                optional(*name),
                unsupported@,
                field@,
            ) is None && activation_named(optional(*name)->0) == Some(a),
            Err(e) => activation_name_fault(
                architecture@,
                optional(*name),
                unsupported@,
                field@,
            ) == Some(e@),
        },
{
    match name {
        Some(text) => match parse_activation(text.as_str()) {
            Some(activation) => Ok(activation),
            None => Err(
                ModelAdapterError::invalid(
                    architecture,
                    cat2(unsupported, text.as_str()).as_str(),
                ),
            ),
        },
        None => Err(ModelAdapterError::missing_field(architecture, field)),
    }
}

/// Whether a way to choose experts uses a correction of the scores.
pub open spec fn corrected(method: Seq<char>) -> bool {
    method == "noaux_tc"@
}

/// Why a way to choose experts cannot be used.
pub open spec fn method_fault(architecture: Seq<char>, method: Option<Seq<char>>) -> Option<
    Seq<char>,
> {
    match method {
        Some(name) => if corrected(name) || name == "greedy"@ || name
            == "group_limited_greedy"@ {
            None
        } else {
            Some(invalid_message(architecture, "unsupported topk_method "@ + name))
        },
        None => Some(missing_field_message(architecture, "topk_method"@)),
    }
}

fn choice_is_corrected(architecture: &str, method: &Option<String>) -> (choice: Result<
    bool,
    ModelAdapterError,
>)
    ensures
        match choice {
            Ok(c) => method_fault(architecture@, optional(*method)) is None && c == corrected(
                optional(*method)->0,
            ),
            Err(e) => method_fault(architecture@, optional(*method)) == Some(e@),
        },
{
    match method {
        Some(name) => {
            let text = name.as_str();
            if same_text(text, "noaux_tc") {
                return Ok(true);
            }
            if same_text(text, "greedy") || same_text(text, "group_limited_greedy") {
                proof {
                    reveal_strlit("noaux_tc");
                    reveal_strlit("greedy");
                    reveal_strlit("group_limited_greedy");
                }
                return Ok(false);
            }
            Err(
                ModelAdapterError::invalid(
                    architecture,
                    cat2("unsupported topk_method ", text).as_str(),
                ),
            )
        },
        None => Err(ModelAdapterError::missing_field(architecture, "topk_method")),
    }
}

/// Why more experts are asked for than there are.
pub open spec fn choice_fault(architecture: Seq<char>, chosen: usize, routed: usize) -> Option<
    Seq<char>,
> {
    if chosen > routed {
        Some(
            invalid_message(
                architecture,
                "num_experts_per_tok ("@ + decimal(chosen as nat) + ") exceeds n_routed_experts ("@
                    + decimal(routed as nat) + ")"@,
            ),
        )
    } else {
        None
    }
}

/// Whether no more experts are asked for than there are.
pub fn check_choice(architecture: &str, chosen: usize, routed: usize) -> (valid: Result<
    (),
    ModelAdapterError,
>)
    ensures
        match valid {
            Ok(_) => choice_fault(architecture@, chosen, routed) is None,
            Err(e) => choice_fault(architecture@, chosen, routed) == Some(e@),
        },
{
    if chosen > routed {
        let text = cat5(
            "num_experts_per_tok (",
            decimal_usize(chosen).as_str(),
            ") exceeds n_routed_experts (",
            decimal_usize(routed).as_str(),
            ")",
        );
        return Err(ModelAdapterError::invalid(architecture, text.as_str()));
    }
    Ok(())
}

/// Why the sizes of a configuration cannot be used.
pub open spec fn sizes_fault(a: Seq<char>, c: MlaMoeConfig) -> Option<Seq<char>> {
    let head = either(
        required_fault(a, "vocab_size"@, c.vocab_size),
        either(
            required_fault(a, "hidden_size"@, c.hidden_size),
            either(
                required_fault(a, "intermediate_size"@, c.intermediate_size),
                either(
                    required_fault(a, "num_hidden_layers"@, c.num_hidden_layers),
                    required_fault(a, "num_attention_heads"@, c.num_attention_heads),
                ),
            ),
        ),
    );
    let attention = either(
        query_rank_fault(a, c.q_lora_rank),
        either(
            required_fault(a, "kv_lora_rank"@, c.kv_lora_rank),
            either(
                required_fault(a, "qk_nope_head_dim"@, c.qk_nope_head_dim),
                either(
                    required_fault(a, "qk_rope_head_dim"@, c.qk_rope_head_dim),
                    required_fault(a, "v_head_dim"@, c.v_head_dim),
                ),
            ),
        ),
    );
    let experts = either(
        required_fault(a, "n_routed_experts"@, c.n_routed_experts),
        either(
            required_fault(a, "num_experts_per_tok"@, c.num_experts_per_tok),
            required_fault(a, "moe_intermediate_size"@, c.moe_intermediate_size),
        ),
    );
    either(head, either(attention, experts))
}

/// Why the layers or the groups of experts of a configuration cannot be used.
pub open spec fn layout_fault(a: Seq<char>, c: MlaMoeConfig) -> Option<Seq<char>> {
    let routed = c.n_routed_experts->0;
    let groups = c.n_group->0;
    let first_dense = if or_else(c.first_k_dense_replace, 0) > c.num_hidden_layers->0 {
        Some(invalid_message(a, "first_k_dense_replace exceeds num_hidden_layers"@))
    } else {
        None
    };
    let uneven = if routed % groups != 0 || c.topk_group->0 > groups {
        Some(
            invalid_message(
                a,
                "n_routed_experts must divide evenly into n_group and topk_group must not exceed n_group"@,
            ),
        )
    } else {
        None
    };
    either(
        first_dense,
        either(
            required_fault(a, "moe_layer_freq"@, c.moe_layer_freq),
            either(
                required_fault(a, "n_group"@, c.n_group),
                either(
                    required_fault(a, "topk_group"@, c.topk_group),
                    either(choice_fault(a, c.num_experts_per_tok->0, routed), uneven),
                ),
            ),
        ),
    )
}

/// Why the router of a configuration cannot be used, or a fraction of it.
pub open spec fn router_fault(a: Seq<char>, c: MlaMoeConfig) -> Option<Seq<char>> {
    let renormalize = if c.norm_topk_prob is None {
        Some(missing_field_message(a, "norm_topk_prob"@))
    } else {
        None
    };
    either(
        activation_name_fault(
            a,
            optional(c.scoring_func),
            "unsupported scoring_func "@,
            "scoring_func"@,
        ),
        either(
            method_fault(a, optional(c.topk_method)),
            either(
                renormalize,
                either(
                    positive_fault(a, "routed_scaling_factor"@, c.routed_scaling_factor),
                    either(
                        positive_fault(a, "rms_norm_eps"@, c.rms_norm_eps),
                        either(
                            positive_fault(a, "rope_theta"@, c.rope_theta),
                            required_fault(
                                a,
                                "max_position_embeddings"@,
                                c.max_position_embeddings,
                            ),
                        ),
                    ),
                ),
            ),
        ),
    )
}

/// Why the sizes of the projections of a configuration cannot be computed.
pub open spec fn mla_sizes_fault(a: Seq<char>, c: MlaMoeConfig) -> Option<Seq<char>> {
    let heads = c.num_attention_heads->0;
    let nope = c.qk_nope_head_dim->0;
    let rope = c.qk_rope_head_dim->0;
    let value = c.v_head_dim->0;
    either(
        sum_fault(a, nope, rope, "MLA query head"@),
        either(
            product_fault(a, heads, (nope + rope) as usize, "MLA query"@),
            either(
                sum_fault(a, c.kv_lora_rank->0, rope, "MLA compressed KV"@),
                either(
                    sum_fault(a, nope, value, "MLA expanded KV head"@),
                    either(
                        product_fault(a, heads, (nope + value) as usize, "MLA expanded KV"@),
                        product_fault(a, heads, value, "MLA output"@),
                    ),
                ),
            ),
        ),
    )
}

/// The sizes of the projections of a configuration.
pub open spec fn mla_sizes(c: MlaMoeConfig) -> MlaSizes {
    let heads = c.num_attention_heads->0;
    MlaSizes {
        query: query_of(c.q_lora_rank),
        query_size: (heads * (c.qk_nope_head_dim->0 + c.qk_rope_head_dim->0)) as usize,
        compressed_kv_size: (c.kv_lora_rank->0 + c.qk_rope_head_dim->0) as usize,
        expanded_kv_size: (heads * (c.qk_nope_head_dim->0 + c.v_head_dim->0)) as usize,
        attention_output_size: (heads * c.v_head_dim->0) as usize,
        kv_lora_rank: c.kv_lora_rank->0,
    }
}

/// Why the shared experts of a configuration cannot be described: some layer has experts, and their
/// width cannot be computed.
pub open spec fn shared_fault(a: Seq<char>, c: MlaMoeConfig) -> Option<Seq<char>> {
    let layout = feed_forward_layout(c);
    if layout.moe_config.shared_expert_count > 0 && layout.moe_config.expert_intermediate_size
        * layout.moe_config.shared_expert_count > usize::MAX && exists|l: nat|
        l < c.num_hidden_layers->0 && #[trigger] layout.is_moe(l) {
        Some(invalid_message(a, "shared expert intermediate size overflowed"@))
    } else {
        None
    }
}

/// Which layers have experts, and what the others have.
pub open spec fn feed_forward_layout(c: MlaMoeConfig) -> FeedForwardLayout {
    FeedForwardLayout {
        first_dense_layer_count: or_else(c.first_k_dense_replace, 0),
        moe_layer_frequency: c.moe_layer_freq->0,
        dense_intermediate_size: c.intermediate_size->0,
        moe_config: MoeFeedForwardConfig {
            routed_expert_count: c.n_routed_experts->0,
            experts_per_token: c.num_experts_per_tok->0,
            expert_group_count: c.n_group->0,
            selected_expert_group_count: c.topk_group->0,
            shared_expert_count: or_else(c.n_shared_experts, 0),
            expert_intermediate_size: c.moe_intermediate_size->0,
            renormalize: c.norm_topk_prob->0,
            router_activation: activation_named(optional(c.scoring_func)->0)->0,
            routed_scaling_factor: c.routed_scaling_factor->0.narrow,
        },
        has_correction_bias: corrected(optional(c.topk_method)->0),
    }
}

/// Whether the names are those of a layer of multi-latent attention.
pub open spec fn names_mla_layer(
    names: HybridDecoderLayerWeightNames,
    root: Seq<char>,
    layer_id: nat,
    query: MultiLatentQueryConfig,
    layout: FeedForwardLayout,
) -> bool {
    let prefix = layer_prefix(root, layer_id);
    &&& names.input_norm@ == prefix + ".input_layernorm.weight"@
    &&& names.post_attention_norm@ == prefix + ".post_attention_layernorm.weight"@
    &&& match names.mixer {
        HybridDecoderLayerKind::MultiLatentAttention { cache_layer_index, weights } => {
            cache_layer_index == layer_id && names_mla(weights, prefix, query)
        },
        _ => false,
    }
    &&& names_layer_feed_forward(names.feed_forward, prefix, layer_id, layout)
}

/// Whether the names are those of a decoder of multi-latent attention.
pub open spec fn names_mla_decoder(
    names: HybridDecoderWeightNames,
    spec: DeepSeekV3DefinitionSpec,
    num_layers: nat,
    query: MultiLatentQueryConfig,
    layout: FeedForwardLayout,
    tied_embeddings: bool,
) -> bool {
    &&& names.token_embeddings@ == spec.model_prefix@ + ".embed_tokens.weight"@
    &&& names.final_norm@ == spec.model_prefix@ + ".norm.weight"@
    &&& named(names.lm_head) == name_if(!tied_embeddings, spec.lm_head@)
    &&& names.layers@.len() == num_layers
    &&& forall|i: int|
        0 <= i < num_layers ==> names_mla_layer(
            #[trigger] names.layers@[i],
            spec.model_prefix@,
            i as nat,
            query,
            layout,
        )
}

fn deepseek_v3_weight_names(
    spec: &DeepSeekV3DefinitionSpec,
    num_layers: usize,
    query: MultiLatentQueryConfig,
    layout: &FeedForwardLayout,
    tied_embeddings: bool,
) -> (names: HybridDecoderWeightNames)
    requires
        layout.moe_layer_frequency > 0,
    ensures
        names_mla_decoder(names, *spec, num_layers as nat, query, *layout, tied_embeddings),
{
    let mut layers: Vec<HybridDecoderLayerWeightNames> = Vec::new();
    let mut i: usize = 0;
    while i < num_layers
        invariant
            i <= num_layers,
            layout.moe_layer_frequency > 0,
            layers@.len() == i,
            forall|j: int|
                0 <= j < i ==> names_mla_layer(
                    #[trigger] layers@[j],
                    spec.model_prefix@,
                    j as nat,
                    query,
                    *layout,
                ),
        decreases num_layers - i,
    {
        let prefix = prefix_of_layer(spec.model_prefix, i);
        let at = prefix.as_str();
        layers.push(
            HybridDecoderLayerWeightNames {
                input_norm: cat2(at, ".input_layernorm.weight"),
                mixer: HybridDecoderLayerKind::MultiLatentAttention {
                    cache_layer_index: i,
                    weights: mla_names(at, query),
                },
                post_attention_norm: cat2(at, ".post_attention_layernorm.weight"),
                feed_forward: layer_feed_forward(at, i, layout),
            },
        );
        i = i + 1;
    }
    let lm_head = if tied_embeddings {
        None
    } else {
        Some(spec.lm_head.to_owned())
    };
    HybridDecoderWeightNames {
        token_embeddings: cat2(spec.model_prefix, ".embed_tokens.weight"),
        final_norm: cat2(spec.model_prefix, ".norm.weight"),
        lm_head,
        layers,
    }
}

/// Whether a plan is that of a configuration.
pub open spec fn v3_plan_of(
    plan: HybridDecoderExecutionPlan,
    spec: DeepSeekV3DefinitionSpec,
    c: MlaMoeConfig,
) -> bool {
    &&& plan.vocab_size == c.vocab_size->0
    &&& plan.hidden_size == c.hidden_size->0
    &&& plan.max_position_embeddings == c.max_position_embeddings->0
    &&& plan.rms_norm_eps == c.rms_norm_eps->0.narrow
    &&& plan.rope_theta == c.rope_theta->0.narrow
    &&& plan.normalization == DecoderNormalization::Rms
    &&& plan.full_attention == (HybridFullAttentionConfig::MultiLatent {
        num_attention_heads: c.num_attention_heads->0,
        query: query_of(c.q_lora_rank),
        kv_lora_rank: c.kv_lora_rank->0,
        qk_nope_head_dim: c.qk_nope_head_dim->0,
        qk_rope_head_dim: c.qk_rope_head_dim->0,
        value_head_dim: c.v_head_dim->0,
        skip_rope: false,
        rotary_embedding: None,
    })
    &&& plan.linear_attention is None
    &&& plan.activation == DenseDecoderActivation::Silu
    &&& names_mla_decoder(
        plan.weights,
        spec,
        c.num_hidden_layers->0 as nat,
        query_of(c.q_lora_rank),
        feed_forward_layout(c),
        c.tie_word_embeddings == Some(true),
    )
}

/// How a model of such a configuration is run.
pub open spec fn mla_execution(c: MlaMoeConfig) -> ModelExecutionArchitecture {
    ModelExecutionArchitecture::Transformer {
        attention: AttentionArchitecture::MultiLatent {
            num_attention_heads: c.num_attention_heads->0,
            qk_nope_head_dim: c.qk_nope_head_dim->0,
            qk_rope_head_dim: c.qk_rope_head_dim->0,
            value_head_dim: c.v_head_dim->0,
        },
        feed_forward: FeedForwardArchitecture::MixtureOfExperts {
            routed_expert_count: c.n_routed_experts->0,
            experts_per_token: c.num_experts_per_tok->0,
            shared_expert_count: or_else(c.n_shared_experts, 0),
            expert_intermediate_size: c.moe_intermediate_size->0,
        },
    }
}

/// The cache of latent keys and values.
pub open spec fn latent_cache(num_layers: usize, kv_lora_rank: usize, rope: usize) -> KvCacheModelLayout {
    KvCacheModelLayout {
        num_layers,
        kv_heads: 1,
        head_dim: (kv_lora_rank + rope) as usize,
        kv_tensors_per_token: 2,
        bytes_per_token_per_layer: None,
        tensor_geometry: KvCacheTensorGeometry::Pair {
            key_elements: (kv_lora_rank + rope) as usize,
            value_elements: kv_lora_rank,
        },
    }
}

/// Why no definition can be made of a configuration.
pub open spec fn v3_fault(a: Seq<char>, c: MlaMoeConfig) -> Option<Seq<char>> {
    either(
        features_fault(a, c),
        either(
            sizes_fault(a, c),
            either(
                layout_fault(a, c),
                either(
                    router_fault(a, c),
                    either(mla_sizes_fault(a, c), shared_fault(a, c)),
                ),
            ),
        ),
    )
}

/// Whether a definition is that of a configuration.
pub open spec fn v3_definition_of(
    definition: ModelDefinition,
    spec: DeepSeekV3DefinitionSpec,
    hf_config: HfModelConfig,
    c: MlaMoeConfig,
) -> bool {
    &&& definition.wf()
    &&& bare_definition(
        definition,
        spec.architecture@,
        hf_config,
        mla_execution(c),
        seq![RuntimeDtype::F32, RuntimeDtype::Bf16],
        Some(
            latent_cache(c.num_hidden_layers->0, c.kv_lora_rank->0, c.qk_rope_head_dim->0),
        ),
    )
    &&& definition.vocab_size == c.vocab_size
    &&& definition.max_context_length == c.max_position_embeddings
    &&& definition.cache_architecture == ModelCacheArchitecture::PagedKv
    &&& definition.recurrent_state is None
    &&& definition.dense_decoder is None
    &&& definition.hybrid_decoder is Some
    &&& v3_plan_of(definition.hybrid_decoder->0, spec, c)
    &&& definition.checkpoint_topology@ == (Topology {
        tensors: mla_tensors(
            definition.hybrid_decoder->0,
            mla_sizes(c),
            None,
            definition.hybrid_decoder->0.weights.layers@.len(),
        ),
        experts: places(
            expert_coordinates(
                definition.hybrid_decoder->0.weights.layers@,
                definition.hybrid_decoder->0.weights.layers@.len(),
            ),
        ),
        weights_per_group: 3,
    })
}

proof fn lemma_layers_fault(
    layers: Seq<HybridDecoderLayerWeightNames>,
    spec: DeepSeekV3DefinitionSpec,
    c: MlaMoeConfig,
    wrong_mixer: Seq<char>,
    n: nat,
)
    requires
        n <= layers.len(),
        layers.len() == c.num_hidden_layers->0,
        forall|i: int|
            0 <= i < layers.len() ==> names_mla_layer(
                #[trigger] layers[i],
                spec.model_prefix@,
                i as nat,
                query_of(c.q_lora_rank),
                feed_forward_layout(c),
            ),
    ensures
        ({
            let moe = feed_forward_layout(c).moe_config;
            let wide = moe.shared_expert_count > 0 && moe.expert_intermediate_size
                * moe.shared_expert_count > usize::MAX;
            let fault = mla_layers_fault(layers, query_of(c.q_lora_rank), false, wrong_mixer, n);
            &&& fault is Some ==> fault->0 == "shared expert intermediate size overflowed"@
            &&& fault is Some <==> wide && exists|l: nat|
                l < n && #[trigger] feed_forward_layout(c).is_moe(l)
        }),
    decreases n,
{
    if n > 0 {
        lemma_layers_fault(layers, spec, c, wrong_mixer, (n - 1) as nat);
        let last = layers[n - 1];
        assert(names_mla_layer(
            layers[n - 1],
            spec.model_prefix@,
            (n - 1) as nat,
            query_of(c.q_lora_rank),
            feed_forward_layout(c),
        ));
        let layout = feed_forward_layout(c);
        if exists|l: nat| l < n && #[trigger] layout.is_moe(l) {
            let l = choose|l: nat| l < n && #[trigger] layout.is_moe(l);
            if l < n - 1 {
                assert(l < (n - 1) as nat && layout.is_moe(l));
            }
        }
        if layout.is_moe((n - 1) as nat) {
            assert(((n - 1) as nat) < n && layout.is_moe((n - 1) as nat));
        }
    }
}

fn compute_mla_sizes(
    architecture: &str,
    config: &MlaMoeConfig,
    query: MultiLatentQueryConfig,
    heads: usize,
    kv_lora_rank: usize,
    nope: usize,
    rope: usize,
    value: usize,
) -> (sizes: Result<MlaSizes, ModelAdapterError>)
    requires
        config.num_attention_heads == Some(heads),
        config.kv_lora_rank == Some(kv_lora_rank),
        config.qk_nope_head_dim == Some(nope),
        config.qk_rope_head_dim == Some(rope),
        config.v_head_dim == Some(value),
        query == query_of(config.q_lora_rank),
    ensures
        match sizes {
            Ok(s) => mla_sizes_fault(architecture@, *config) is None && s == mla_sizes(*config),
            Err(e) => mla_sizes_fault(architecture@, *config) == Some(e@),
        },
{
    let query_head: usize = checked_add(architecture, nope, rope, "MLA query head")?;
    let query_size: usize = checked_product(architecture, heads, query_head, "MLA query")?;
    let compressed_kv_size: usize = checked_add(
        architecture,
        kv_lora_rank,
        rope,
        "MLA compressed KV",
    )?;
    let expanded_head: usize = checked_add(architecture, nope, value, "MLA expanded KV head")?;
    let expanded_kv_size: usize = checked_product(
        architecture,
        heads,
        expanded_head,
        "MLA expanded KV",
    )?;
    let attention_output_size: usize = checked_product(architecture, heads, value, "MLA output")?;
    Ok(
        MlaSizes {
            query,
            query_size,
            compressed_kv_size,
            expanded_kv_size,
            attention_output_size,
            kv_lora_rank,
        },
    )
}

/// The definition of a model of such a configuration.
pub fn build_deepseek_v3_definition_for_adapter(
    hf_config: &HfModelConfig,
    config: &MlaMoeConfig,
    spec: DeepSeekV3DefinitionSpec,
) -> (definition: Result<ModelDefinition, ModelAdapterError>)
    ensures
        match definition {
            Ok(d) => v3_fault(spec.architecture@, *config) is None && v3_definition_of(
                d,
                spec,
                *hf_config,
                *config,
            ),
            Err(e) => v3_fault(spec.architecture@, *config) == Some(e@),
        },
{
    let a = spec.architecture;
    reject_unsupported_deepseek_v3_features(a, config)?;
    let vocab_size: usize = required_usize(a, "vocab_size", config.vocab_size)?;
    let hidden_size: usize = required_usize(a, "hidden_size", config.hidden_size)?;
    let dense_intermediate_size: usize = required_usize(
        a,
        "intermediate_size",
        config.intermediate_size,
    )?;
    let num_layers: usize = required_usize(a, "num_hidden_layers", config.num_hidden_layers)?;
    let heads: usize = required_usize(a, "num_attention_heads", config.num_attention_heads)?;
    let query = query_config(a, config.q_lora_rank)?;
    let kv_lora_rank: usize = required_usize(a, "kv_lora_rank", config.kv_lora_rank)?;
    let nope: usize = required_usize(a, "qk_nope_head_dim", config.qk_nope_head_dim)?;
    let rope: usize = required_usize(a, "qk_rope_head_dim", config.qk_rope_head_dim)?;
    let value: usize = required_usize(a, "v_head_dim", config.v_head_dim)?;
    let routed: usize = required_usize(a, "n_routed_experts", config.n_routed_experts)?;
    let chosen: usize = required_usize(a, "num_experts_per_tok", config.num_experts_per_tok)?;
    let expert_intermediate_size: usize = required_usize(
        a,
        "moe_intermediate_size",
        config.moe_intermediate_size,
    )?;
    let first_dense_layer_count: usize = number_or(config.first_k_dense_replace, 0);
    if first_dense_layer_count > num_layers {
        return Err(
            ModelAdapterError::invalid(a, "first_k_dense_replace exceeds num_hidden_layers"),
        );
    }
    let moe_layer_frequency: usize = required_usize(a, "moe_layer_freq", config.moe_layer_freq)?;
    let groups: usize = required_usize(a, "n_group", config.n_group)?;
    let selected: usize = required_usize(a, "topk_group", config.topk_group)?;
    check_choice(a, chosen, routed)?;
    if routed % groups != 0 || selected > groups {
        return Err(
            ModelAdapterError::invalid(
                a,
                "n_routed_experts must divide evenly into n_group and topk_group must not exceed n_group",
            ),
        );
    }
    let activation = router_activation(
        a,
        &config.scoring_func,
        "unsupported scoring_func ",
        "scoring_func",
    )?;
    let has_correction_bias = choice_is_corrected(a, &config.topk_method)?;
    let renormalize = match config.norm_topk_prob {
        Some(renormalize) => renormalize,
        None => {
            return Err(ModelAdapterError::missing_field(a, "norm_topk_prob"));
        },
    };
    let routed_scaling_factor: u32 = positive_float(
        a,
        "routed_scaling_factor",
        config.routed_scaling_factor,
    )?;
    let rms_norm_eps: u32 = positive_float(a, "rms_norm_eps", config.rms_norm_eps)?;
    let rope_theta: u32 = positive_float(a, "rope_theta", config.rope_theta)?;
    let max_position_embeddings: usize = required_usize(
        a,
        "max_position_embeddings",
        config.max_position_embeddings,
    )?;
    let shared_expert_count: usize = number_or(config.n_shared_experts, 0);
    let layout = FeedForwardLayout {
        first_dense_layer_count,
        moe_layer_frequency,
        dense_intermediate_size,
        moe_config: MoeFeedForwardConfig {
            routed_expert_count: routed,
            experts_per_token: chosen,
            expert_group_count: groups,
            selected_expert_group_count: selected,
            shared_expert_count,
            expert_intermediate_size,
            renormalize,
            router_activation: activation,
            routed_scaling_factor,
        },
        has_correction_bias,
    };
    let tied = match config.tie_word_embeddings {
        Some(tied) => tied,
        None => false,
    };
    let plan = HybridDecoderExecutionPlan {
        vocab_size,
        hidden_size,
        max_position_embeddings,
        rms_norm_eps,
        rope_theta,
        normalization: DecoderNormalization::Rms,
        full_attention: HybridFullAttentionConfig::MultiLatent {
            num_attention_heads: heads,
            query,
            kv_lora_rank,
            qk_nope_head_dim: nope,
            qk_rope_head_dim: rope,
            value_head_dim: value,
            skip_rope: false,
            rotary_embedding: None,
        },
        linear_attention: None,
        activation: DenseDecoderActivation::Silu,
        weights: deepseek_v3_weight_names(&spec, num_layers, query, &layout, tied),
    };
    let sizes = compute_mla_sizes(a, config, query, heads, kv_lora_rank, nope, rope, value)?;
    let no_kda: Option<KdaSizes> = None;
    proof {
        lemma_layers_fault(
            plan.weights.layers@,
            spec,
            *config,
            "DeepSeek V3 decoder plan contains a non-MLA mixer"@,
            plan.weights.layers@.len(),
        );
        cache_layers_are_layers(plan.weights.layers@, plan.weights.layers@.len());
        assert forall|i: int| 0 <= i < plan.weights.layers@.len() implies (
        #[trigger] plan.weights.layers@[i]).mixer.keeps_keys() by {
            assert(names_mla_layer(
                plan.weights.layers@[i],
                spec.model_prefix@,
                i as nat,
                query,
                layout,
            ));
        }
    }
    let topology = mla_checkpoint_topology(
        a,
        &plan,
        &sizes,
        &no_kda,
        "DeepSeek V3 decoder plan contains a non-MLA mixer",
    )?;
    let width: usize = checked_add(a, kv_lora_rank, rope, "MLA key width")?;
    let cache = match KvCacheModelLayout::tensor_pair(num_layers, 1, width, 1, kv_lora_rank) {
        Ok(cache) => cache,
        Err(error) => {
            return Err(ModelAdapterError::invalid(a, error.to_string().as_str()));
        },
    };
    let execution = ModelExecutionArchitecture::Transformer {
        attention: AttentionArchitecture::MultiLatent {
            num_attention_heads: heads,
            qk_nope_head_dim: nope,
            qk_rope_head_dim: rope,
            value_head_dim: value,
        },
        feed_forward: FeedForwardArchitecture::MixtureOfExperts {
            routed_expert_count: routed,
            experts_per_token: chosen,
            shared_expert_count,
            expert_intermediate_size,
        },
    };
    let mut dtypes: Vec<RuntimeDtype> = Vec::new();
    dtypes.push(RuntimeDtype::F32);
    dtypes.push(RuntimeDtype::Bf16);
    proof {
        assert(dtypes@ =~= seq![RuntimeDtype::F32, RuntimeDtype::Bf16]);
    }
    let bare = ModelDefinition::new(a, hf_config, execution, dtypes, Some(cache));
    Ok(
        bare.with_serving_metadata(vocab_size, max_position_embeddings).with_checkpoint_topology(
            topology,
        ).with_hybrid_decoder(plan),
    )
}

/// How DeepSeek V3 is named.
pub open spec fn names_v3(spec: DeepSeekV3DefinitionSpec) -> bool {
    spec.architecture@ == "DeepseekV3ForCausalLM"@ && spec.model_prefix@ == "model"@ && spec.lm_head@
        == "lm_head.weight"@
}

/// The definition of DeepSeek V3. `config` is what was read of the configuration document, or why it
/// could not be read.
pub fn build_deepseek_v3_definition(
    hf_config: &HfModelConfig,
    config: Result<MlaMoeConfig, String>,
) -> (definition: Result<ModelDefinition, ModelAdapterError>)
    ensures
        match config {
            Ok(c) => match definition {
                Ok(d) => v3_fault("DeepseekV3ForCausalLM"@, c) is None && exists|
                    spec: DeepSeekV3DefinitionSpec,
                |
                    names_v3(spec) && v3_definition_of(d, spec, *hf_config, c),
                Err(e) => v3_fault("DeepseekV3ForCausalLM"@, c) == Some(e@),
            },
            Err(message) => definition is Err && definition->Err_0@ == invalid_message(
                "DeepseekV3ForCausalLM"@,
                "invalid DeepSeek V3 MLA/MoE config document: "@ + message@,
            ),
        },
{
    match config {
        Ok(config) => {
            let spec = DeepSeekV3DefinitionSpec {
                architecture: "DeepseekV3ForCausalLM",
                model_prefix: "model",
                lm_head: "lm_head.weight",
            };
            proof {
                assert(names_v3(spec));
            }
            build_deepseek_v3_definition_for_adapter(hf_config, &config, spec)
        },
        Err(message) => Err(
            ModelAdapterError::invalid(
                "DeepseekV3ForCausalLM",
                cat2(
                    "invalid DeepSeek V3 MLA/MoE config document: ",
                    message.as_str(),
                ).as_str(),
            ),
        ),
    }
}

/// The configuration of Kimi K2.5.
#[derive(Debug)]
pub struct KimiK25Config {
    pub text_config: MlaMoeConfig,
    pub encoder_only: bool,
    pub quantization_config: Option<Json>,
}

/// How Kimi K2.5 is named.
pub open spec fn names_k25(spec: DeepSeekV3DefinitionSpec) -> bool {
    spec.architecture@ == "KimiK25ForConditionalGeneration"@ && spec.model_prefix@
        == "language_model.model"@ && spec.lm_head@ == "language_model.lm_head.weight"@
}

/// Why no definition can be made of a configuration of Kimi K2.5.
pub open spec fn k25_fault(config: KimiK25Config) -> Option<Seq<char>> {
    let a = "KimiK25ForConditionalGeneration"@;
    if config.encoder_only {
        Some(invalid_message(a, "encoder_only Kimi K2.5 has no language model to serve"@))
    } else if given(config.quantization_config) {
        Some(
            invalid_message(
                a,
                "quantized Kimi K2.5 checkpoints are not implemented; compressed-tensors support is required"@,
            ),
        )
    } else {
        v3_fault(a, config.text_config)
    }
}

/// The definition of Kimi K2.5. `config` is what was read of the configuration document, or why it
/// could not be read.
pub fn build_kimi_k25_definition(
    hf_config: &HfModelConfig,
    config: Result<KimiK25Config, String>,
) -> (definition: Result<ModelDefinition, ModelAdapterError>)
    ensures
        match config {
            Ok(c) => match definition {
                Ok(d) => k25_fault(c) is None && exists|spec: DeepSeekV3DefinitionSpec|
                    names_k25(spec) && v3_definition_of(d, spec, *hf_config, c.text_config),
                Err(e) => k25_fault(c) == Some(e@),
            },
            Err(message) => definition is Err && definition->Err_0@ == invalid_message(
                "KimiK25ForConditionalGeneration"@,
                "invalid Kimi K2.5 config document: "@ + message@,
            ),
        },
{
    let a = "KimiK25ForConditionalGeneration";
    let config = match config {
        Ok(config) => config,
        Err(message) => {
            return Err(
                ModelAdapterError::invalid(
                    a,
                    cat2("invalid Kimi K2.5 config document: ", message.as_str()).as_str(),
                ),
            );
        },
    };
    if config.encoder_only {
        return Err(
            ModelAdapterError::invalid(a, "encoder_only Kimi K2.5 has no language model to serve"),
        );
    }
    if is_given(&config.quantization_config) {
        return Err(
            ModelAdapterError::invalid(
                a,
                "quantized Kimi K2.5 checkpoints are not implemented; compressed-tensors support is required",
            ),
        );
    }
    let spec = DeepSeekV3DefinitionSpec {
        architecture: "KimiK25ForConditionalGeneration",
        model_prefix: "language_model.model",
        lm_head: "language_model.lm_head.weight",
    };
    proof {
        assert(names_k25(spec));
    }
    build_deepseek_v3_definition_for_adapter(hf_config, &config.text_config, spec)
}

} // verus!
