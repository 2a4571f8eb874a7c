//! Qwen 3.5: full attention and gated delta networks in turn.
use vstd::prelude::*;
use vstd::string::*;

use crate::checkpoint::Topology;
use crate::debug_text::{optional, show_option, shown_option};
use crate::decoder_plans::{
    cache_layers, feed_forward_names, layer_prefix, name_if, named, names_feed_forward,
    prefix_of_layer, DecoderNormalization, GatedDeltaNetWeightNames, HybridDecoderExecutionPlan,
    HybridDecoderLayerKind, HybridDecoderLayerWeightNames, HybridDecoderWeightNames,
    HybridFeedForward, HybridFullAttentionConfig, HybridFullAttentionWeightNames,
    HybridLinearAttentionConfig, RotaryEmbeddingConfig, RotaryEmbeddingStyle,
};
use crate::deepseek::{number_or, or_else};
use crate::json::{Json, JsonView};
use crate::kv_cache::{KvCacheModelLayout, KvCacheTensorGeometry};
use crate::model_config::HfModelConfig;
use crate::model_definition::{
    bare_definition, hybrid_decoder_checkpoint_topology, hybrid_layers_fault, hybrid_sizes,
    hybrid_state, hybrid_tensors, no_topology, ModelDefinition,
};
use crate::models::{
    invalid_message, missing_field_message, required_fault, required_usize, AttentionArchitecture,
    ConfigNumber, DenseDecoderActivation, FeedForwardArchitecture, ModelAdapterError,
    ModelCacheArchitecture, ModelExecutionArchitecture, RuntimeDtype,
};
use crate::payload::either;
use crate::qwen::{rope_type, rope_type_of};
use crate::text::{cat2, cat3, cat4, cat5, decimal, decimal_usize, same_text};

verus! {

/// The configuration of the text model of Qwen 3.5.
#[derive(Debug)]
pub struct Qwen3_5TextConfig {
    pub model_type: Option<String>,
    pub vocab_size: Option<usize>,
    pub max_position_embeddings: Option<usize>,
    pub num_hidden_layers: Option<usize>,
    pub hidden_size: Option<usize>,
    pub intermediate_size: Option<usize>,
    pub num_attention_heads: Option<usize>,
    pub num_key_value_heads: Option<usize>,
    pub head_dim: Option<usize>,
    pub hidden_act: Option<String>,
    pub attention_bias: Option<bool>,
    pub rms_norm_eps: Option<ConfigNumber>,
    pub rope_theta: Option<ConfigNumber>,
    pub rope_scaling: Option<Json>,
    pub rope_parameters: Option<Json>,
    /// The number under `rope_theta` in `rope_parameters`.
    pub rope_parameters_theta: Option<ConfigNumber>,
    pub partial_rotary_factor: Option<ConfigNumber>,
    /// The number under `partial_rotary_factor` in `rope_parameters`.
    pub rope_parameters_factor: Option<ConfigNumber>,
    pub tie_word_embeddings: Option<bool>,
    pub layer_types: Vec<String>,
    pub full_attention_interval: Option<usize>,
    pub attn_output_gate: Option<bool>,
    pub linear_conv_kernel_dim: Option<usize>,
    pub linear_key_head_dim: Option<usize>,
    pub linear_value_head_dim: Option<usize>,
    pub linear_num_key_heads: Option<usize>,
    pub linear_num_value_heads: Option<usize>,
    pub output_gate_type: Option<String>,
    pub mamba_ssm_dtype: Option<String>,
}

/// How many of the dimensions of a head are turned: the width of a head times the factor of the
/// configuration, where that is a whole number, and the factor as a text.
#[derive(Debug)]
pub struct RotaryWidth {
    pub dim: Option<usize>,
    pub factor: String,
}

/// The name of the architecture.
pub open spec fn qwen3_5() -> Seq<char> {
    "Qwen3_5ForConditionalGeneration"@
}

/// Something that is wrong with a configuration of Qwen 3.5.
pub open spec fn wrong(message: Seq<char>) -> Option<Seq<char>> {
    Some(invalid_message(qwen3_5(), message))
}

fn invalid(message: &str) -> (error: ModelAdapterError)
    ensures
        Some(error@) == wrong(message@),
{
    ModelAdapterError::invalid("Qwen3_5ForConditionalGeneration", message)
}

/// Why the activation cannot be used.
pub open spec fn activation_fault(c: Qwen3_5TextConfig) -> Option<Seq<char>> {
    match c.hidden_act {
        Some(name) => if name@ == "silu"@ {
            None
        } else {
            wrong("unsupported hidden_act "@ + name@ + "; hybrid decoder requires silu"@)
        },
        None => Some(missing_field_message(qwen3_5(), "text_config.hidden_act"@)),
    }
}

/// The description of the rotary embedding that counts.
pub open spec fn rope_description(c: Qwen3_5TextConfig) -> Option<JsonView> {
    match c.rope_scaling {
        Some(value) => Some(value@),
        None => match c.rope_parameters {
            Some(value) => Some(value@),
            None => None,
        },
    }
}

/// Why the rotary embedding cannot be used.
pub open spec fn rope_fault(c: Qwen3_5TextConfig) -> Option<Seq<char>> {
    match rope_description(c) {
        None => None,
        Some(parameters) => if !(parameters is Object) {
            wrong("rope_parameters must be an object"@)
        } else if rope_type(parameters) != "default"@ {
            wrong(
                "RoPE variant "@ + rope_type(parameters)
                    + " is not implemented by the hybrid decoder"@,
            )
        } else {
            None
        },
    }
}

/// Why a feature of a configuration cannot be used.
pub open spec fn features_fault(c: Qwen3_5TextConfig) -> Option<Seq<char>> {
    let kind = if optional(c.model_type) != Some("qwen3_5_text"@) {
        wrong(
            "text_config.model_type must be qwen3_5_text; found "@ + shown_option(
                optional(c.model_type),
            ) + ". Qwen3.5 MoE and non-text backbones are not implemented"@,
        )
    } else if c.attention_bias == Some(true) {
        wrong("attention_bias=true is not implemented by the shared hybrid decoder"@)
    } else {
        None
    };
    let gate = match c.output_gate_type {
        Some(name) => if name@ == "silu"@ || name@ == "swish"@ {
            None
        } else {
            wrong(
                "unsupported output_gate_type "@ + shown_option(optional(c.output_gate_type))
                    + "; hybrid decoder supports silu/swish"@,
            )
        },
        None => None,
    };
    let state = match c.mamba_ssm_dtype {
        Some(name) => if name@ == "float32"@ {
            None
        } else {
            wrong(
                "unsupported mamba_ssm_dtype "@ + shown_option(optional(c.mamba_ssm_dtype))
                    + "; recurrent state backend requires float32"@,
            )
        },
        None => None,
    };
    either(
        kind,
        either(activation_fault(c), either(gate, either(state, rope_fault(c)))),
    )
}

fn validate_rope(config: &Qwen3_5TextConfig) -> (valid: Result<(), ModelAdapterError>)
    ensures
        match valid {
            Ok(_) => rope_fault(*config) is None,
            Err(e) => rope_fault(*config) == Some(e@),
        },
{
    let parameters = match &config.rope_scaling {
        Some(value) => value,
        None => match &config.rope_parameters {
            Some(value) => value,
            None => {
                return Ok(());
            },
        },
    };
    if !parameters.is_object() {
        return Err(invalid("rope_parameters must be an object"));
    }
    let name = rope_type_of(parameters);
    if !same_text(name.as_str(), "default") {
        return Err(
            invalid(
                cat3(
                    "RoPE variant ",
                    name.as_str(),
                    " is not implemented by the hybrid decoder",
                ).as_str(),
            ),
        );
    }
    Ok(())
}

fn check_features(config: &Qwen3_5TextConfig) -> (valid: Result<(), ModelAdapterError>)
    ensures
        match valid {
            Ok(_) => features_fault(*config) is None,
            Err(e) => features_fault(*config) == Some(e@),
        },
{
    let text_model = match &config.model_type {
        Some(name) => same_text(name.as_str(), "qwen3_5_text"),
        None => false,
    };
    if !text_model {
        return Err(
            invalid(
                cat3(
                    "text_config.model_type must be qwen3_5_text; found ",
                    show_option(&config.model_type).as_str(),
                    ". Qwen3.5 MoE and non-text backbones are not implemented",
                ).as_str(),
            ),
        );
    }
    if let Some(biased) = config.attention_bias {
        if biased {
            return Err(
                invalid("attention_bias=true is not implemented by the shared hybrid decoder"),
            );
        }
    }
    match &config.hidden_act {
        Some(name) => {
            if !same_text(name.as_str(), "silu") {
                return Err(
                    invalid(
                        cat3(
                            "unsupported hidden_act ",
                            name.as_str(),
                            "; hybrid decoder requires silu",
                        ).as_str(),
                    ),
                );
            }
        },
        None => {
            return Err(
                ModelAdapterError::missing_field(
                    "Qwen3_5ForConditionalGeneration",
                    "text_config.hidden_act",
                ),
            );
        },
    }
    if let Some(name) = &config.output_gate_type {
        if !same_text(name.as_str(), "silu") && !same_text(name.as_str(), "swish") {
            return Err(
                invalid(
                    cat3(
                        "unsupported output_gate_type ",
                        show_option(&config.output_gate_type).as_str(),
                        "; hybrid decoder supports silu/swish",
                    ).as_str(),
                ),
            );
        }
    }
    if let Some(name) = &config.mamba_ssm_dtype {
        if !same_text(name.as_str(), "float32") {
            return Err(
                invalid(
                    cat3(
                        "unsupported mamba_ssm_dtype ",
                        show_option(&config.mamba_ssm_dtype).as_str(),
                        "; recurrent state backend requires float32",
                    ).as_str(),
                ),
            );
        }
    }
    validate_rope(config)
}

/// Why the sizes of a configuration cannot be used.
pub open spec fn sizes_fault(c: Qwen3_5TextConfig) -> Option<Seq<char>> {
    let a = qwen3_5();
    let full = either(
        required_fault(a, "vocab_size"@, c.vocab_size),
        either(
            required_fault(a, "num_hidden_layers"@, c.num_hidden_layers),
            either(
                required_fault(a, "hidden_size"@, c.hidden_size),
                either(
                    required_fault(a, "intermediate_size"@, c.intermediate_size),
                    either(
                        required_fault(a, "num_attention_heads"@, c.num_attention_heads),
                        either(
                            required_fault(a, "num_key_value_heads"@, c.num_key_value_heads),
                            required_fault(a, "head_dim"@, c.head_dim),
                        ),
                    ),
                ),
            ),
        ),
    );
    let linear = either(
        required_fault(a, "linear_conv_kernel_dim"@, c.linear_conv_kernel_dim),
        either(
            required_fault(a, "linear_key_head_dim"@, c.linear_key_head_dim),
            either(
                required_fault(a, "linear_value_head_dim"@, c.linear_value_head_dim),
                either(
                    required_fault(a, "linear_num_key_heads"@, c.linear_num_key_heads),
                    required_fault(a, "linear_num_value_heads"@, c.linear_num_value_heads),
                ),
            ),
        ),
    );
    let heads = if c.num_attention_heads->0 % c.num_key_value_heads->0 != 0 {
        wrong("num_attention_heads must be divisible by num_key_value_heads"@)
    } else if c.linear_num_value_heads->0 % c.linear_num_key_heads->0 != 0 {
        wrong("linear_num_value_heads must be divisible by linear_num_key_heads"@)
    } else {
        None
    };
    either(full, either(linear, heads))
}

/// Ten thousand: the bits of its binary64 and its binary32 value.
pub open spec fn default_theta() -> ConfigNumber {
    ConfigNumber { wide: 0x40c3_8800_0000_0000, narrow: 0x461c_4000 }
}

/// The base of the rotary embedding.
pub open spec fn theta(c: Qwen3_5TextConfig) -> ConfigNumber {
    match c.rope_theta {
        Some(number) => number,
        None => match c.rope_parameters_theta {
            Some(number) => number,
            None => default_theta(),
        },
    }
}

/// The base of the rotary embedding.
pub fn rope_theta_of(config: &Qwen3_5TextConfig) -> (number: ConfigNumber)
    ensures
        number == theta(*config),
{
    match config.rope_theta {
        Some(number) => number,
        None => match config.rope_parameters_theta {
            Some(number) => number,
            None => ConfigNumber { wide: 0x40c3_8800_0000_0000, narrow: 0x461c_4000 },
        },
    }
}

/// The bits of the binary64 value of a quarter.
pub const DEFAULT_ROTARY_FACTOR: u64 = 0x3fd0_0000_0000_0000;

/// The factor by which the width of a head is turned, by the bits of its binary64 value.
pub open spec fn rotary_factor(c: Qwen3_5TextConfig) -> u64 {
    match c.partial_rotary_factor {
        Some(number) => number.wide,
        None => match c.rope_parameters_factor {
            Some(number) => number.wide,
            None => DEFAULT_ROTARY_FACTOR,
        },
    }
}

/// The factor by which the width of a head is turned, by the bits of its binary64 value.
pub fn partial_rotary_factor(config: &Qwen3_5TextConfig) -> (bits: u64)
    ensures
        bits == rotary_factor(*config),
{
    match config.partial_rotary_factor {
        Some(number) => number.wide,
        None => match config.rope_parameters_factor {
            Some(number) => number.wide,
            None => DEFAULT_ROTARY_FACTOR,
        },
    }
}

/// Why the fractions of a configuration cannot be used; `rotary` is what the kernel said of the
/// rotary embedding.
pub open spec fn fractions_fault(
    c: Qwen3_5TextConfig,
    width: RotaryWidth,
    rotary: Result<(), String>,
) -> Option<Seq<char>> {
    if c.rms_norm_eps is None {
        Some(missing_field_message(qwen3_5(), "rms_norm_eps"@))
    } else if !c.rms_norm_eps->0.positive() {
        wrong("rms_norm_eps must be finite and positive"@)
    } else if !theta(c).positive() {
        wrong("rope_theta must be finite and positive"@)
    } else if !(0 < rotary_factor(c) <= 0x3ff0_0000_0000_0000) {
        wrong("partial_rotary_factor must be finite and in (0, 1]"@)
    } else if width.dim is None || width.dim->0 == 0 || width.dim->0 % 2 != 0 {
        wrong(
            "head_dim "@ + decimal(c.head_dim->0 as nat) + " * partial_rotary_factor "@
                + width.factor@ + " must produce a non-zero even rotary dimension"@,
        )
    } else {
        match rotary {
            Ok(_) => None,
            Err(message) => wrong(message@),
        }
    }
}

fn check_fractions(
    config: &Qwen3_5TextConfig,
    head_dim: usize,
    width: &RotaryWidth,
    rotary: &Result<(), String>,
) -> (dim: Result<usize, ModelAdapterError>)
    requires
        config.head_dim == Some(head_dim),
    ensures
        match dim {
            Ok(n) => fractions_fault(*config, *width, *rotary) is None && width.dim == Some(n),
            Err(e) => fractions_fault(*config, *width, *rotary) == Some(e@),
        },
{
    match config.rms_norm_eps {
        Some(number) => {
            if !number.is_positive() {
                return Err(invalid("rms_norm_eps must be finite and positive"));
            }
        },
        None => {
            return Err(
                ModelAdapterError::missing_field(
                    "Qwen3_5ForConditionalGeneration",
                    "rms_norm_eps",
                ),
            );
        },
    }
    if !rope_theta_of(config).is_positive() {
        return Err(invalid("rope_theta must be finite and positive"));
    }
    let factor: u64 = partial_rotary_factor(config);
    if factor == 0 || factor > 0x3ff0_0000_0000_0000 {
        return Err(invalid("partial_rotary_factor must be finite and in (0, 1]"));
    }
    let dim: usize = match width.dim {
        Some(n) => n,
        None => 0,
    };
    if dim == 0 || dim % 2 != 0 {
        return Err(
            invalid(
                cat5(
                    "head_dim ",
                    decimal_usize(head_dim).as_str(),
                    " * partial_rotary_factor ",
                    width.factor.as_str(),
                    " must produce a non-zero even rotary dimension",
                ).as_str(),
            ),
        );
    }
    match rotary {
        Ok(_) => Ok(dim),
        Err(message) => Err(invalid(message.as_str())),
    }
}

/// Whether a layer has full attention: by its type, or, where no types are given, by its number.
pub open spec fn is_full(c: Qwen3_5TextConfig, layer: nat) -> bool {
    if c.layer_types@.len() == 0 {
        (layer + 1) % c.full_attention_interval->0 as nat == 0
    } else {
        c.layer_types@[layer as int]@ == "full_attention"@
    }
}

/// Whether a type of layer is known.
pub open spec fn known_type(name: Seq<char>) -> bool {
    name == "full_attention"@ || name == "linear_attention"@
}

/// The first type of layer, from `i` on, that is not known.
pub open spec fn unknown_type(types: Seq<String>, i: nat) -> Option<Seq<char>>
    decreases types.len() - i,
{
    if i >= types.len() {
        None
    } else if known_type(types[i as int]@) {
        unknown_type(types, i + 1)
    } else {
        Some(types[i as int]@)
    }
}

/// Why the types of the layers cannot be used.
pub open spec fn types_fault(c: Qwen3_5TextConfig) -> Option<Seq<char>> {
    let types = c.layer_types@;
    let num_layers = c.num_hidden_layers->0;
    if types.len() == 0 {
        required_fault(qwen3_5(), "full_attention_interval"@, c.full_attention_interval)
    } else if types.len() != num_layers {
        wrong(
            "layer_types has "@ + decimal(types.len()) + " entries but num_hidden_layers is "@
                + decimal(num_layers as nat),
        )
    } else {
        match unknown_type(types, 0) {
            Some(name) => wrong("unsupported hybrid layer type "@ + name),
            None => None,
        }
    }
}

/// The number of the first `n` layers that have full attention.
pub open spec fn full_before(c: Qwen3_5TextConfig, n: nat) -> nat
    decreases n,
{
    if n == 0 {
        0
    } else if is_full(c, (n - 1) as nat) {
        full_before(c, (n - 1) as nat) + 1
    } else {
        full_before(c, (n - 1) as nat)
    }
}

/// Why the layers are not of both kinds.
pub open spec fn kinds_fault(c: Qwen3_5TextConfig) -> Option<Seq<char>> {
    let n = c.num_hidden_layers->0 as nat;
    if full_before(c, n) == 0 || full_before(c, n) == n {
        wrong(
            "hybrid decoder requires at least one full_attention and one linear_attention layer"@,
        )
    } else {
        None
    }
}

fn resolve_layer_types(config: &Qwen3_5TextConfig, num_layers: usize) -> (full: Result<
    Vec<bool>,
    ModelAdapterError,
>)
    requires
        config.num_hidden_layers == Some(num_layers),
    ensures
        match full {
            Ok(list) => types_fault(*config) is None && list@.len() == num_layers && forall|i: int|
                0 <= i < num_layers ==> #[trigger] list@[i] == is_full(*config, i as nat),
            Err(e) => types_fault(*config) == Some(e@),
        },
{
    let mut list: Vec<bool> = Vec::new();
    let mut i: usize = 0;
    if config.layer_types.len() == 0 {
        let interval: usize = required_usize(
            "Qwen3_5ForConditionalGeneration",
            "full_attention_interval",
            config.full_attention_interval,
        )?;
        while i < num_layers
            invariant
                i <= num_layers,
                interval > 0,
                config.layer_types@.len() == 0,
                config.full_attention_interval == Some(interval),
                list@.len() == i,
                forall|j: int| 0 <= j < i ==> #[trigger] list@[j] == is_full(*config, j as nat),
            decreases num_layers - i,
        {
            list.push((i + 1) % interval == 0);
            i = i + 1;
        }
        return Ok(list);
    }
    if config.layer_types.len() != num_layers {
        return Err(
            invalid(
                cat4(
                    "layer_types has ",
                    decimal_usize(config.layer_types.len()).as_str(),
                    " entries but num_hidden_layers is ",
                    decimal_usize(num_layers).as_str(),
                ).as_str(),
            ),
        );
    }
    while i < num_layers
        invariant
            i <= num_layers,
            num_layers == config.layer_types@.len(),
            num_layers > 0,
            config.num_hidden_layers == Some(num_layers),
            unknown_type(config.layer_types@, 0) == unknown_type(config.layer_types@, i as nat),
            list@.len() == i,
            forall|j: int| 0 <= j < i ==> #[trigger] list@[j] == is_full(*config, j as nat),
        decreases num_layers - i,
    {
        let name = config.layer_types[i].as_str();
        let full = same_text(name, "full_attention");
        if !full && !same_text(name, "linear_attention") {
            return Err(invalid(cat2("unsupported hybrid layer type ", name).as_str()));
        }
        list.push(full);
        i = i + 1;
    }
    Ok(list)
}

/// Whether the names are those of full attention at `prefix`.
pub open spec fn names_full_attention(
    names: HybridFullAttentionWeightNames,
    prefix: Seq<char>,
) -> bool {
    &&& names.query_weight@ == prefix + ".self_attn.q_proj.weight"@
    &&& names.query_norm@ == prefix + ".self_attn.q_norm.weight"@
    &&& names.key_weight@ == prefix + ".self_attn.k_proj.weight"@
    &&& names.key_norm@ == prefix + ".self_attn.k_norm.weight"@
    &&& names.value_weight@ == prefix + ".self_attn.v_proj.weight"@
    &&& names.output_weight@ == prefix + ".self_attn.o_proj.weight"@
}

/// Whether the names are those of a gated delta network at `prefix`.
pub open spec fn names_gated_delta(names: GatedDeltaNetWeightNames, prefix: Seq<char>) -> bool {
    &&& names.a_log@ == prefix + ".linear_attn.A_log"@
    &&& names.conv1d_weight@ == prefix + ".linear_attn.conv1d.weight"@
    &&& names.dt_bias@ == prefix + ".linear_attn.dt_bias"@
    &&& names.in_proj_a_weight@ == prefix + ".linear_attn.in_proj_a.weight"@
    &&& names.in_proj_b_weight@ == prefix + ".linear_attn.in_proj_b.weight"@
    &&& names.in_proj_qkv_weight@ == prefix + ".linear_attn.in_proj_qkv.weight"@
    &&& names.in_proj_z_weight@ == prefix + ".linear_attn.in_proj_z.weight"@
    &&& names.norm_weight@ == prefix + ".linear_attn.norm.weight"@
    &&& names.output_weight@ == prefix + ".linear_attn.out_proj.weight"@
}

/// Whether the names are those of a layer; each kind of layer is counted by itself.
pub open spec fn names_qwen3_5_layer(
    names: HybridDecoderLayerWeightNames,
    c: Qwen3_5TextConfig,
    layer_id: nat,
) -> bool {
    let prefix = layer_prefix("model.language_model"@, layer_id);
    &&& names.input_norm@ == prefix + ".input_layernorm.weight"@
    &&& names.post_attention_norm@ == prefix + ".post_attention_layernorm.weight"@
    &&& match names.mixer {
        HybridDecoderLayerKind::FullAttention { cache_layer_index, weights } => {
            &&& is_full(c, layer_id)
            &&& cache_layer_index == full_before(c, layer_id)
            &&& names_full_attention(weights, prefix)
        },
        HybridDecoderLayerKind::GatedDeltaNet { state_layer_index, weights } => {
            &&& !is_full(c, layer_id)
            &&& state_layer_index == layer_id - full_before(c, layer_id)
            &&& names_gated_delta(weights, prefix)
        },
        _ => false,
    }
    &&& match names.feed_forward {
        HybridFeedForward::Dense { intermediate_size, weights } => intermediate_size
            == c.intermediate_size->0 && names_feed_forward(weights, prefix + ".mlp"@),
        _ => false,
    }
}

/// Whether the names are those of a decoder.
pub open spec fn names_qwen3_5_decoder(
    names: HybridDecoderWeightNames,
    c: Qwen3_5TextConfig,
) -> bool {
    &&& names.token_embeddings@ == "model.language_model.embed_tokens.weight"@
    &&& names.final_norm@ == "model.language_model.norm.weight"@
    &&& named(names.lm_head) == name_if(c.tie_word_embeddings != Some(true), "lm_head.weight"@)
    &&& names.layers@.len() == c.num_hidden_layers->0
    &&& forall|i: int|
        0 <= i < names.layers@.len() ==> names_qwen3_5_layer(
            #[trigger] names.layers@[i],
            c,
            i as nat,
        )
}

fn full_attention_names(prefix: &str) -> (names: HybridFullAttentionWeightNames)
    ensures
        names_full_attention(names, prefix@),
{
    HybridFullAttentionWeightNames {
        query_weight: cat2(prefix, ".self_attn.q_proj.weight"),
        query_norm: cat2(prefix, ".self_attn.q_norm.weight"),
        key_weight: cat2(prefix, ".self_attn.k_proj.weight"),
        key_norm: cat2(prefix, ".self_attn.k_norm.weight"),
        value_weight: cat2(prefix, ".self_attn.v_proj.weight"),
        output_weight: cat2(prefix, ".self_attn.o_proj.weight"),
    }
}

fn gated_delta_names(prefix: &str) -> (names: GatedDeltaNetWeightNames)
    ensures
        names_gated_delta(names, prefix@),
{
    GatedDeltaNetWeightNames {
        a_log: cat2(prefix, ".linear_attn.A_log"),
        conv1d_weight: cat2(prefix, ".linear_attn.conv1d.weight"),
        dt_bias: cat2(prefix, ".linear_attn.dt_bias"),
        in_proj_a_weight: cat2(prefix, ".linear_attn.in_proj_a.weight"),
        in_proj_b_weight: cat2(prefix, ".linear_attn.in_proj_b.weight"),
        in_proj_qkv_weight: cat2(prefix, ".linear_attn.in_proj_qkv.weight"),
        in_proj_z_weight: cat2(prefix, ".linear_attn.in_proj_z.weight"),
        norm_weight: cat2(prefix, ".linear_attn.norm.weight"),
        output_weight: cat2(prefix, ".linear_attn.out_proj.weight"),
    }
}

fn weight_names(
    config: &Qwen3_5TextConfig,
    full: &Vec<bool>,
    intermediate_size: usize,
    num_layers: usize,
) -> (names: HybridDecoderWeightNames)
    requires
        config.intermediate_size == Some(intermediate_size),
        config.num_hidden_layers == Some(num_layers),
        full@.len() == num_layers,
        forall|i: int| 0 <= i < num_layers ==> #[trigger] full@[i] == is_full(*config, i as nat),
    ensures
        names_qwen3_5_decoder(names, *config),
        cache_layers(names.layers@, num_layers as nat) == full_before(*config, num_layers as nat),
{
    let mut layers: Vec<HybridDecoderLayerWeightNames> = Vec::new();
    let mut cache_layer_index: usize = 0;
    let mut state_layer_index: usize = 0;
    let mut i: usize = 0;
    while i < num_layers
        invariant
            i <= num_layers,
            config.intermediate_size == Some(intermediate_size),
            full@.len() == num_layers,
            forall|j: int|
                0 <= j < num_layers ==> #[trigger] full@[j] == is_full(*config, j as nat),
            layers@.len() == i,
            cache_layer_index + state_layer_index == i,
            cache_layer_index == full_before(*config, i as nat),
            forall|j: int|
                0 <= j < i ==> names_qwen3_5_layer(#[trigger] layers@[j], *config, j as nat),
        decreases num_layers - i,
    {
        let prefix = prefix_of_layer("model.language_model", i);
        let at = prefix.as_str();
        let mixer = if full[i] {
            let index: usize = cache_layer_index;
            cache_layer_index = cache_layer_index + 1;
            HybridDecoderLayerKind::FullAttention {
                cache_layer_index: index,
                weights: full_attention_names(at),
            }
        } else {
            let index: usize = state_layer_index;
            state_layer_index = state_layer_index + 1;
            HybridDecoderLayerKind::GatedDeltaNet {
                state_layer_index: index,
                weights: gated_delta_names(at),
            }
        };
        let mlp = cat2(at, ".mlp");
        layers.push(
            HybridDecoderLayerWeightNames {
                input_norm: cat2(at, ".input_layernorm.weight"),
                mixer,
                post_attention_norm: cat2(at, ".post_attention_layernorm.weight"),
                feed_forward: HybridFeedForward::Dense {
                    intermediate_size,
                    weights: feed_forward_names(mlp.as_str()),
                },
            },
        );
        i = i + 1;
    }
    let tied = match config.tie_word_embeddings {
        Some(tied) => tied,
        None => false,
    };
    let lm_head = if tied {
        None
    } else {
        Some("lm_head.weight".to_owned())
    };
    proof {
        lemma_cache_layers(layers@, *config, num_layers as nat);
    }
    HybridDecoderWeightNames {
        token_embeddings: "model.language_model.embed_tokens.weight".to_owned(),
        final_norm: "model.language_model.norm.weight".to_owned(),
        lm_head,
        layers,
    }
}

proof fn lemma_cache_layers(
    layers: Seq<HybridDecoderLayerWeightNames>,
    c: Qwen3_5TextConfig,
    n: nat,
)
    requires
        n <= layers.len(),
        forall|i: int|
            0 <= i < layers.len() ==> names_qwen3_5_layer(#[trigger] layers[i], c, i as nat),
    ensures
        cache_layers(layers, n) == full_before(c, n),
        hybrid_layers_fault(layers, n) is None,
    decreases n,
{
    if n > 0 {
        lemma_cache_layers(layers, c, (n - 1) as nat);
        assert(names_qwen3_5_layer(layers[n - 1], c, (n - 1) as nat));
    }
}

/// How a model of such a configuration is run.
pub open spec fn qwen3_5_execution(c: Qwen3_5TextConfig) -> ModelExecutionArchitecture {
    ModelExecutionArchitecture::Transformer {
        attention: AttentionArchitecture::Hybrid {
            num_attention_heads: c.num_attention_heads->0,
            num_key_value_heads: c.num_key_value_heads->0,
            attention_head_dim: c.head_dim->0,
            linear_num_key_heads: c.linear_num_key_heads->0,
            linear_num_value_heads: c.linear_num_value_heads->0,
            linear_key_head_dim: c.linear_key_head_dim->0,
            linear_value_head_dim: c.linear_value_head_dim->0,
        },
        feed_forward: FeedForwardArchitecture::Dense {
            intermediate_size: c.intermediate_size->0,
        },
    }
}

/// Whether a plan is that of a configuration, of whose heads `rotary_dim` dimensions are turned.
pub open spec fn qwen3_5_plan_of(
    plan: HybridDecoderExecutionPlan,
    c: Qwen3_5TextConfig,
    rotary_dim: usize,
) -> bool {
    &&& plan.vocab_size == c.vocab_size->0
    &&& plan.hidden_size == c.hidden_size->0
    &&& plan.max_position_embeddings == or_else(c.max_position_embeddings, 32_768)
    &&& plan.rms_norm_eps == c.rms_norm_eps->0.narrow
    &&& plan.rope_theta == theta(c).narrow
    &&& plan.normalization == DecoderNormalization::GemmaRms
    &&& plan.full_attention == (HybridFullAttentionConfig::MultiHead {
        num_attention_heads: c.num_attention_heads->0,
        num_key_value_heads: c.num_key_value_heads->0,
        head_dim: c.head_dim->0,
        rotary_dim,
        output_gate: c.attn_output_gate != Some(false),
        rotary_embedding: RotaryEmbeddingConfig {
            theta: theta(c).narrow,
            style: RotaryEmbeddingStyle::Neox,
        },
    })
    &&& plan.linear_attention == Some(
        HybridLinearAttentionConfig::GatedDeltaNet {
            conv_kernel_dim: c.linear_conv_kernel_dim->0,
            key_head_dim: c.linear_key_head_dim->0,
            value_head_dim: c.linear_value_head_dim->0,
            num_key_heads: c.linear_num_key_heads->0,
            num_value_heads: c.linear_num_value_heads->0,
        },
    )
    &&& plan.activation == DenseDecoderActivation::Silu
    &&& names_qwen3_5_decoder(plan.weights, c)
}

/// Why the sizes of the projections of a configuration cannot be computed.
pub open spec fn projections_fault(c: Qwen3_5TextConfig) -> Option<Seq<char>> {
    let query = c.num_attention_heads->0 * c.head_dim->0;
    let keys = c.linear_num_key_heads->0 * c.linear_key_head_dim->0;
    let values = c.linear_num_value_heads->0 * c.linear_value_head_dim->0;
    let gates: int = if c.attn_output_gate != Some(false) {
        2
    } else {
        1
    };
    if query > usize::MAX {
        wrong("query projection size overflowed"@)
    } else if query * gates > usize::MAX {
        wrong("gated query projection size overflowed"@)
    } else if c.num_key_value_heads->0 * c.head_dim->0 > usize::MAX {
        wrong("KV projection size overflowed"@)
    } else if keys > usize::MAX {
        wrong("linear key size overflowed"@)
    } else if values > usize::MAX {
        wrong("linear value size overflowed"@)
    } else if keys * 2 + values > usize::MAX {
        wrong("linear convolution size overflowed"@)
    } else {
        None
    }
}

/// Why no definition can be made of a configuration.
pub open spec fn qwen3_5_fault(
    c: Qwen3_5TextConfig,
    width: RotaryWidth,
    rotary: Result<(), String>,
) -> Option<Seq<char>> {
    let length = if or_else(c.max_position_embeddings, 32_768) == 0 {
        wrong("max_position_embeddings must be non-zero"@)
    } else {
        None
    };
    either(
        features_fault(c),
        either(
            sizes_fault(c),
            either(
                fractions_fault(c, width, rotary),
                either(
                    types_fault(c),
                    either(kinds_fault(c), either(length, projections_fault(c))),
                ),
            ),
        ),
    )
}

/// Whether a definition is that of a configuration.
pub open spec fn qwen3_5_definition_of(
    definition: ModelDefinition,
    hf_config: HfModelConfig,
    c: Qwen3_5TextConfig,
    rotary_dim: usize,
) -> bool {
    let plan = definition.hybrid_decoder->0;
    let layers = plan.weights.layers@;
    &&& definition.wf()
    &&& bare_definition(
        definition,
        qwen3_5(),
        hf_config,
        qwen3_5_execution(c),
        seq![RuntimeDtype::F32, RuntimeDtype::Fp16, RuntimeDtype::Bf16],
        Some(
            KvCacheModelLayout {
                num_layers: full_before(c, c.num_hidden_layers->0 as nat) as usize,
                kv_heads: c.num_key_value_heads->0,
                head_dim: c.head_dim->0,
                kv_tensors_per_token: 2,
                bytes_per_token_per_layer: None,
                tensor_geometry: KvCacheTensorGeometry::Uniform,
            },
        ),
    )
    &&& definition.vocab_size == c.vocab_size
    &&& definition.max_context_length == Some(or_else(c.max_position_embeddings, 32_768))
    &&& definition.cache_architecture == (ModelCacheArchitecture::HybridState {
        full_attention_layer_count: full_before(c, c.num_hidden_layers->0 as nat) as usize,
        recurrent_state_layer_count: (c.num_hidden_layers->0 - full_before(
            c,
            c.num_hidden_layers->0 as nat,
        )) as usize,
    })
    &&& definition.recurrent_state == hybrid_state(plan)
    &&& definition.dense_decoder is None
    &&& definition.hybrid_decoder is Some
    &&& qwen3_5_plan_of(plan, c, rotary_dim)
    &&& definition.checkpoint_topology@ == (Topology {
        tensors: hybrid_tensors(plan, hybrid_sizes(plan), layers.len()),
        ..no_topology()
    })
}

fn count_full(full: &Vec<bool>, Ghost(c): Ghost<Qwen3_5TextConfig>) -> (count: usize)
    requires
        forall|i: int| 0 <= i < full@.len() ==> #[trigger] full@[i] == is_full(c, i as nat),
    ensures
        count == full_before(c, full@.len()),
        count <= full@.len(),
{
    let mut count: usize = 0;
    let mut i: usize = 0;
    while i < full.len()
        invariant
            i <= full@.len(),
            count <= i,
            count == full_before(c, i as nat),
            forall|j: int| 0 <= j < full@.len() ==> #[trigger] full@[j] == is_full(c, j as nat),
        decreases full@.len() - i,
    {
        if full[i] {
            count = count + 1;
        }
        i = i + 1;
    }
    count
}

/// The definition of Qwen 3.5. `config` is what was read of the configuration document, or why it
/// could not be read; `width` tells how many dimensions of a head are turned, and `rotary` what the
/// kernel says of that rotary embedding.
#[verifier::rlimit(40)]
pub fn build_qwen3_5_definition(
    hf_config: &HfModelConfig,
    config: Result<Qwen3_5TextConfig, String>,
    width: &RotaryWidth,
    rotary: &Result<(), String>,
) -> (definition: Result<ModelDefinition, ModelAdapterError>)
    ensures
        match config {
            Ok(c) => match definition {
                Ok(d) => qwen3_5_fault(c, *width, *rotary) is None && qwen3_5_definition_of(
                    d,
                    *hf_config,
                    c,
                    width.dim->0,
                ),
                Err(e) => qwen3_5_fault(c, *width, *rotary) == Some(e@),
            },
            Err(message) => definition is Err && Some(definition->Err_0@) == wrong(
                "invalid Qwen3.5 hybrid config document: "@ + message@,
            ),
        },
{
    let a = "Qwen3_5ForConditionalGeneration";
    let config = match config {
        Ok(config) => config,
        Err(message) => {
            return Err(
                invalid(
                    cat2("invalid Qwen3.5 hybrid config document: ", message.as_str()).as_str(),
                ),
            );
        },
    };
    check_features(&config)?;
    let vocab_size: usize = required_usize(a, "vocab_size", config.vocab_size)?;
    let num_layers: usize = required_usize(a, "num_hidden_layers", config.num_hidden_layers)?;
    let hidden_size: usize = required_usize(a, "hidden_size", config.hidden_size)?;
    let intermediate_size: usize = required_usize(
        a,
        "intermediate_size",
        config.intermediate_size,
    )?;
    let heads: usize = required_usize(a, "num_attention_heads", config.num_attention_heads)?;
    let kv_heads: usize = required_usize(a, "num_key_value_heads", config.num_key_value_heads)?;
    let head_dim: usize = required_usize(a, "head_dim", config.head_dim)?;
    let kernel: usize = required_usize(
        a,
        "linear_conv_kernel_dim",
        config.linear_conv_kernel_dim,
    )?;
    let key_dim: usize = required_usize(a, "linear_key_head_dim", config.linear_key_head_dim)?;
    let value_dim: usize = required_usize(
        a,
        "linear_value_head_dim",
        config.linear_value_head_dim,
    )?;
    let key_heads: usize = required_usize(
        a,
        "linear_num_key_heads",
        config.linear_num_key_heads,
    )?;
    let value_heads: usize = required_usize(
        a,
        "linear_num_value_heads",
        config.linear_num_value_heads,
    )?;
    if heads % kv_heads != 0 {
        return Err(invalid("num_attention_heads must be divisible by num_key_value_heads"));
    }
    if value_heads % key_heads != 0 {
        return Err(invalid("linear_num_value_heads must be divisible by linear_num_key_heads"));
    }
    let rotary_dim: usize = check_fractions(&config, head_dim, width, rotary)?;
    let rms_norm_eps: u32 = match config.rms_norm_eps {
        Some(number) => number.narrow,
        None => 0,
    };
    let rope_theta: u32 = rope_theta_of(&config).narrow;
    let full = resolve_layer_types(&config, num_layers)?;
    let full_count: usize = count_full(&full, Ghost(config));
    if full_count == 0 || full_count == num_layers {
        return Err(
            invalid(
                "hybrid decoder requires at least one full_attention and one linear_attention layer",
            ),
        );
    }
    let weights = weight_names(&config, &full, intermediate_size, num_layers);
    let max_position_embeddings: usize = number_or(config.max_position_embeddings, 32_768);
    if max_position_embeddings == 0 {
        return Err(invalid("max_position_embeddings must be non-zero"));
    }
    let output_gate = match config.attn_output_gate {
        Some(gate) => gate,
        None => true,
    };
    proof {
        lemma_cache_layers(weights.layers@, config, num_layers as nat);
    }
    let plan = HybridDecoderExecutionPlan {
        vocab_size,
        hidden_size,
        max_position_embeddings,
        rms_norm_eps,
        rope_theta,
        normalization: DecoderNormalization::GemmaRms,
        full_attention: HybridFullAttentionConfig::MultiHead {
            num_attention_heads: heads,
            num_key_value_heads: kv_heads,
            head_dim,
            rotary_dim,
            output_gate,
            rotary_embedding: RotaryEmbeddingConfig {
                theta: rope_theta,
                style: RotaryEmbeddingStyle::Neox,
            },
        },
        linear_attention: Some(
            HybridLinearAttentionConfig::GatedDeltaNet {
                conv_kernel_dim: kernel,
                key_head_dim: key_dim,
                value_head_dim: value_dim,
                num_key_heads: key_heads,
                num_value_heads: value_heads,
            },
        ),
        activation: DenseDecoderActivation::Silu,
        weights,
    };
    let topology = hybrid_decoder_checkpoint_topology(a, &plan)?;
    let execution = ModelExecutionArchitecture::Transformer {
        attention: AttentionArchitecture::Hybrid {
            num_attention_heads: heads,
            num_key_value_heads: kv_heads,
            attention_head_dim: head_dim,
            linear_num_key_heads: key_heads,
            linear_num_value_heads: value_heads,
            linear_key_head_dim: key_dim,
            linear_value_head_dim: value_dim,
        },
        feed_forward: FeedForwardArchitecture::Dense { intermediate_size },
    };
    let mut dtypes: Vec<RuntimeDtype> = Vec::new();
    dtypes.push(RuntimeDtype::F32);
    dtypes.push(RuntimeDtype::Fp16);
    dtypes.push(RuntimeDtype::Bf16);
    proof {
        assert(dtypes@ =~= seq![RuntimeDtype::F32, RuntimeDtype::Fp16, RuntimeDtype::Bf16]);
    }
    let layout = KvCacheModelLayout::multi_tensor(full_count, kv_heads, head_dim, 2);
    let bare = ModelDefinition::new(a, hf_config, execution, dtypes, Some(layout));
    Ok(
        bare.with_serving_metadata(vocab_size, max_position_embeddings).with_checkpoint_topology(
            topology,
        ).with_hybrid_decoder(plan),
    )
}

} // verus!
