//! Dense decoders of the Qwen family.
use vstd::prelude::*;
use vstd::string::*;

use crate::decoder_plans::{
    layer_prefix, name_if, named, optional_name, prefix_of_layer, DenseDecoderExecutionPlan,
    DenseDecoderLayerWeightNames, DenseDecoderWeightNames,
};
use crate::checkpoint::Topology;
use crate::json::{Json, JsonView};
use crate::kv_cache::{KvCacheModelLayout, KvCacheTensorGeometry};
use crate::model_config::HfModelConfig;
use crate::model_definition::{
    bare_definition, dense_decoder_checkpoint_topology, dense_sizes, dense_tensors, no_topology,
    ModelDefinition,
};
use crate::models::{
    invalid_message, missing_field_message, required_fault, required_usize, AttentionArchitecture,
    ConfigNumber, DenseDecoderActivation, FeedForwardArchitecture, ModelAdapterError,
    ModelCacheArchitecture, ModelExecutionArchitecture, RuntimeDtype,
};
use crate::payload::either;
use crate::text::{cat2, cat3, cat5, decimal, decimal_usize, same_text};

verus! {

/// The configuration of a dense decoder of the Qwen family.
#[derive(Debug)]
pub struct QwenDenseConfig {
    pub vocab_size: Option<usize>,
    pub max_position_embeddings: Option<usize>,
    pub num_hidden_layers: Option<usize>,
    pub hidden_size: Option<usize>,
    pub intermediate_size: Option<usize>,
    pub num_attention_heads: Option<usize>,
    pub original_num_attention_heads: Option<usize>,
    pub num_key_value_heads: Option<usize>,
    pub head_dim: Option<usize>,
    pub hidden_act: Option<String>,
    pub attention_bias: Option<bool>,
    pub rms_norm_eps: Option<ConfigNumber>,
    pub rope_theta: Option<ConfigNumber>,
    pub rope_scaling: Option<Json>,
    pub rope_parameters: Option<Json>,
    /// The number under `rope_theta` in `rope_parameters`.
    pub rope_parameters_theta: Option<ConfigNumber>,
    pub use_sliding_window: Option<bool>,
    pub sliding_window: Option<usize>,
    pub tie_word_embeddings: Option<bool>,
}

/// A number that may be missing, as it is shown.
pub open spec fn optional_number(value: Option<usize>) -> Seq<char> {
    match value {
        Some(n) => "Some("@ + decimal(n as nat) + ")"@,
        None => "None"@,
    }
}

fn text_of_number(value: Option<usize>) -> (text: String)
    ensures
        text@ == optional_number(value),
{
    match value {
        Some(n) => cat3("Some(", decimal_usize(n).as_str(), ")"),
        None => "None".to_owned(),
    }
}

/// The number of heads of keys and values.
pub open spec fn kv_heads(config: QwenDenseConfig) -> usize {
    match config.num_key_value_heads {
        Some(n) => n,
        None => config.num_attention_heads->0,
    }
}

/// Why the heads of keys and values cannot be shared by the attention heads.
pub open spec fn kv_heads_fault(architecture: Seq<char>, config: QwenDenseConfig) -> Option<
    Seq<char>,
> {
    let heads = config.num_attention_heads->0;
    let kv = kv_heads(config);
    if kv == 0 || heads % kv != 0 {
        Some(
            invalid_message(
                architecture,
                "num_attention_heads ("@ + decimal(heads as nat)
                    + ") must be divisible by non-zero num_key_value_heads ("@ + decimal(
                    kv as nat,
                ) + ")"@,
            ),
        )
    } else {
        None
    }
}

/// By how many heads the hidden size is divided.
pub open spec fn head_divisor(config: QwenDenseConfig) -> usize {
    match config.original_num_attention_heads {
        Some(n) => n,
        None => config.num_attention_heads->0,
    }
}

/// Whether the width of a head follows from the hidden size.
pub open spec fn head_dim_follows(config: QwenDenseConfig) -> bool {
    config.original_num_attention_heads is Some || config.head_dim is None
}

/// The width of a head.
pub open spec fn head_dim(config: QwenDenseConfig) -> usize {
    if head_dim_follows(config) {
        (config.hidden_size->0 as int / head_divisor(config) as int) as usize
    } else {
        config.head_dim->0
    }
}

/// Why heads have no width, or one that cannot be turned in pairs.
pub open spec fn head_dim_fault(architecture: Seq<char>, config: QwenDenseConfig) -> Option<
    Seq<char>,
> {
    let hidden = config.hidden_size->0;
    let divisor = head_divisor(config);
    if head_dim_follows(config) && (divisor == 0 || hidden % divisor != 0) {
        Some(
            invalid_message(
                architecture,
                "hidden_size ("@ + decimal(hidden as nat)
                    + ") must be divisible by attention head divisor ("@ + decimal(divisor as nat)
                    + ")"@,
            ),
        )
    } else if !head_dim_follows(config) && config.head_dim->0 == 0 {
        Some(invalid_message(architecture, "head_dim must be non-zero"@))
    } else if head_dim(config) % 2 != 0 {
        Some(
            invalid_message(
                architecture,
                "NeoX RoPE requires an even head_dim, found "@ + decimal(head_dim(config) as nat),
            ),
        )
    } else {
        None
    }
}

/// Why the activation cannot be used.
pub open spec fn activation_fault(architecture: Seq<char>, config: QwenDenseConfig) -> Option<
    Seq<char>,
> {
    match config.hidden_act {
        Some(name) => if name@ == "silu"@ {
            None
        } else {
            Some(
                invalid_message(
                    architecture,
                    "unsupported hidden_act "@ + name@ + "; shared dense decoder requires silu"@,
                ),
            )
        },
        None => Some(missing_field_message(architecture, "hidden_act"@)),
    }
}

/// Why a window over the tokens cannot be used.
pub open spec fn window_fault(architecture: Seq<char>, config: QwenDenseConfig) -> Option<
    Seq<char>,
> {
    if config.use_sliding_window == Some(true) {
        Some(
            invalid_message(
                architecture,
                "sliding-window attention is not implemented (sliding_window="@
                    + optional_number(config.sliding_window) + ")"@,
            ),
        )
    } else {
        None
    }
}

/// The kind of rotary embedding that an object names; without a name it is the default.
pub open spec fn rope_type(parameters: JsonView) -> Seq<char> {
    let named = match parameters.get("rope_type"@) {
        Some(value) => Some(value),
        None => parameters.get("type"@),
    };
    match named {
        Some(value) => match value.as_text() {
            Some(text) => text,
            None => "default"@,
        },
        None => "default"@,
    }
}

/// The kind of rotary embedding that an object names.
pub fn rope_type_of(parameters: &Json) -> (name: String)
    ensures
        name@ == rope_type(parameters@),
{
    let named = match parameters.get("rope_type") {
        Some(value) => Some(value),
        None => parameters.get("type"),
    };
    match named {
        Some(value) => match value.as_str() {
            Some(text) => text.to_owned(),
            None => "default".to_owned(),
        },
        None => "default".to_owned(),
    }
}

/// The description of the rotary embedding that counts.
pub open spec fn rope_description(config: QwenDenseConfig) -> Option<JsonView> {
    match config.rope_scaling {
        Some(value) => Some(value@),
        None => match config.rope_parameters {
            Some(value) => Some(value@),
            None => None,
        },
    }
}

/// Why the rotary embedding cannot be used.
pub open spec fn rope_fault(architecture: Seq<char>, config: QwenDenseConfig) -> Option<Seq<char>> {
    match rope_description(config) {
        None => None,
        Some(parameters) => if !(parameters is Object) {
            Some(
                invalid_message(
                    architecture,
                    "rope_scaling/rope_parameters must be an object"@,
                ),
            )
        } else {
            let fope = match parameters.get("use_fope"@) {
                Some(value) => value.as_flag() == Some(true),
                None => false,
            };
            if rope_type(parameters) != "default"@ || parameters.get("mrope_section"@) is Some
                || fope {
                Some(
                    invalid_message(
                        architecture,
                        "RoPE variant "@ + rope_type(parameters)
                            + " is not implemented by the dense decoder backend"@,
                    ),
                )
            } else {
                None
            }
        },
    }
}

fn validate_default_rope(architecture: &str, config: &QwenDenseConfig) -> (valid: Result<
    (),
    ModelAdapterError,
>)
    ensures
        match valid {
            Ok(_) => rope_fault(architecture@, *config) is None,
            Err(e) => rope_fault(architecture@, *config) == Some(e@),
        },
{
    let parameters = match &config.rope_scaling {
        Some(value) => value,
        None => match &config.rope_parameters {
            Some(value) => value,
            None => {
                return Ok(());
            },
        },
    };
    if !parameters.is_object() {
        return Err(
            ModelAdapterError::invalid(
                architecture,
                "rope_scaling/rope_parameters must be an object",
            ),
        );
    }
    let name = rope_type_of(parameters);
    let fope = match parameters.get("use_fope") {
        Some(value) => match value.as_bool() {
            Some(flag) => flag,
            None => false,
        },
        None => false,
    };
    if !same_text(name.as_str(), "default") || parameters.get("mrope_section").is_some() || fope {
        let text = cat3(
            "RoPE variant ",
            name.as_str(),
            " is not implemented by the dense decoder backend",
        );
        return Err(ModelAdapterError::invalid(architecture, text.as_str()));
    }
    Ok(())
}

/// Why the small number of the normalisation cannot be used.
pub open spec fn eps_fault(architecture: Seq<char>, value: Option<ConfigNumber>) -> Option<
    Seq<char>,
> {
    match value {
        None => Some(missing_field_message(architecture, "rms_norm_eps"@)),
        Some(number) => if !number.narrow_finite() || number.narrow_negative() {
            Some(invalid_message(architecture, "rms_norm_eps must be finite and non-negative"@))
        } else {
            None
        },
    }
}

/// The bits of a million as a binary32 value.
pub const DEFAULT_ROPE_THETA: u32 = 0x4974_2400;

/// The base of the rotary embedding, by its bits.
pub open spec fn rope_theta(config: QwenDenseConfig) -> u32 {
    match config.rope_theta {
        Some(number) => number.narrow,
        None => match config.rope_parameters_theta {
            Some(number) => number.narrow,
            None => DEFAULT_ROPE_THETA,
        },
    }
}

/// The greatest number of positions.
pub open spec fn positions(value: Option<usize>) -> usize {
    match value {
        Some(n) => n,
        None => 32_768,
    }
}

/// Why a configuration cannot be used, apart from what follows from its plan.
pub open spec fn config_fault(architecture: Seq<char>, config: QwenDenseConfig) -> Option<
    Seq<char>,
> {
    let sizes = either(
        required_fault(architecture, "vocab_size"@, config.vocab_size),
        either(
            required_fault(architecture, "num_hidden_layers"@, config.num_hidden_layers),
            either(
                required_fault(architecture, "hidden_size"@, config.hidden_size),
                either(
                    required_fault(architecture, "intermediate_size"@, config.intermediate_size),
                    required_fault(
                        architecture,
                        "num_attention_heads"@,
                        config.num_attention_heads,
                    ),
                ),
            ),
        ),
    );
    let heads = either(kv_heads_fault(architecture, config), head_dim_fault(architecture, config));
    let features = either(
        activation_fault(architecture, config),
        either(window_fault(architecture, config), rope_fault(architecture, config)),
    );
    let theta = if 0 < rope_theta(config) < 0x7f80_0000 {
        None
    } else {
        Some(invalid_message(architecture, "rope_theta must be finite and positive"@))
    };
    let length = if positions(config.max_position_embeddings) == 0 {
        Some(invalid_message(architecture, "max_position_embeddings must be non-zero"@))
    } else {
        None
    };
    either(
        sizes,
        either(
            heads,
            either(
                features,
                either(eps_fault(architecture, config.rms_norm_eps), either(theta, length)),
            ),
        ),
    )
}

/// How a model of such a configuration is run.
pub open spec fn qwen_execution(config: QwenDenseConfig) -> ModelExecutionArchitecture {
    ModelExecutionArchitecture::Transformer {
        attention: AttentionArchitecture::MultiHead {
            num_attention_heads: config.num_attention_heads->0,
            num_key_value_heads: kv_heads(config),
            head_dim: head_dim(config),
        },
        feed_forward: FeedForwardArchitecture::Dense {
            intermediate_size: config.intermediate_size->0,
        },
    }
}

/// Which weights a layer has beyond those that all have.
#[derive(Clone, Copy, Debug, PartialEq, Eq, Structural)]
pub struct DenseExtras {
    pub input_biases: bool,
    pub output_bias: bool,
    pub head_norms: bool,
}

/// Whether the names are those of a layer at `prefix`.
pub open spec fn names_dense_layer(
    names: DenseDecoderLayerWeightNames,
    prefix: Seq<char>,
    extras: DenseExtras,
) -> bool {
    &&& names.input_norm@ == prefix + ".input_layernorm.weight"@
    &&& names.query_weight@ == prefix + ".self_attn.q_proj.weight"@
    &&& named(names.query_bias) == name_if(
        extras.input_biases,
        prefix + ".self_attn.q_proj.bias"@,
    )
    &&& named(names.query_norm) == name_if(extras.head_norms, prefix + ".self_attn.q_norm.weight"@)
    &&& names.key_weight@ == prefix + ".self_attn.k_proj.weight"@
    &&& named(names.key_bias) == name_if(extras.input_biases, prefix + ".self_attn.k_proj.bias"@)
    &&& named(names.key_norm) == name_if(extras.head_norms, prefix + ".self_attn.k_norm.weight"@)
    &&& names.value_weight@ == prefix + ".self_attn.v_proj.weight"@
    &&& named(names.value_bias) == name_if(
        extras.input_biases,
        prefix + ".self_attn.v_proj.bias"@,
    )
    &&& names.output_weight@ == prefix + ".self_attn.o_proj.weight"@
    &&& named(names.output_bias) == name_if(
        extras.output_bias,
        prefix + ".self_attn.o_proj.bias"@,
    )
    &&& names.post_attention_norm@ == prefix + ".post_attention_layernorm.weight"@
    &&& names.gate_weight@ == prefix + ".mlp.gate_proj.weight"@
    &&& names.up_weight@ == prefix + ".mlp.up_proj.weight"@
    &&& names.down_weight@ == prefix + ".mlp.down_proj.weight"@
}

/// Whether the names are those of a dense decoder.
pub open spec fn names_dense_decoder(
    names: DenseDecoderWeightNames,
    num_layers: nat,
    tied_embeddings: bool,
    extras: DenseExtras,
) -> bool {
    &&& names.token_embeddings@ == "model.embed_tokens.weight"@
    &&& names.final_norm@ == "model.norm.weight"@
    &&& named(names.lm_head) == name_if(!tied_embeddings, "lm_head.weight"@)
    &&& names.layers@.len() == num_layers
    &&& forall|i: int|
        0 <= i < num_layers ==> names_dense_layer(
            #[trigger] names.layers@[i],
            layer_prefix("model"@, i as nat),
            extras,
        )
}

fn dense_layer_names(prefix: &str, extras: DenseExtras) -> (names: DenseDecoderLayerWeightNames)
    ensures
        names_dense_layer(names, prefix@, extras),
{
    DenseDecoderLayerWeightNames {
        input_norm: cat2(prefix, ".input_layernorm.weight"),
        query_weight: cat2(prefix, ".self_attn.q_proj.weight"),
        query_bias: optional_name(extras.input_biases, prefix, ".self_attn.q_proj.bias"),
        query_norm: optional_name(extras.head_norms, prefix, ".self_attn.q_norm.weight"),
        key_weight: cat2(prefix, ".self_attn.k_proj.weight"),
        key_bias: optional_name(extras.input_biases, prefix, ".self_attn.k_proj.bias"),
        key_norm: optional_name(extras.head_norms, prefix, ".self_attn.k_norm.weight"),
        value_weight: cat2(prefix, ".self_attn.v_proj.weight"),
        value_bias: optional_name(extras.input_biases, prefix, ".self_attn.v_proj.bias"),
        output_weight: cat2(prefix, ".self_attn.o_proj.weight"),
        output_bias: optional_name(extras.output_bias, prefix, ".self_attn.o_proj.bias"),
        post_attention_norm: cat2(prefix, ".post_attention_layernorm.weight"),
        gate_weight: cat2(prefix, ".mlp.gate_proj.weight"),
        up_weight: cat2(prefix, ".mlp.up_proj.weight"),
        down_weight: cat2(prefix, ".mlp.down_proj.weight"),
    }
}

fn dense_names(num_layers: usize, tied_embeddings: bool, extras: DenseExtras) -> (names:
    DenseDecoderWeightNames)
    ensures
        names_dense_decoder(names, num_layers as nat, tied_embeddings, extras),
{
    let mut layers: Vec<DenseDecoderLayerWeightNames> = Vec::new();
    let mut i: usize = 0;
    while i < num_layers
        invariant
            i <= num_layers,
            layers@.len() == i,
            forall|j: int|
                0 <= j < i ==> names_dense_layer(
                    #[trigger] layers@[j],
                    layer_prefix("model"@, j as nat),
                    extras,
                ),
        decreases num_layers - i,
    {
        let prefix = prefix_of_layer("model", i);
        layers.push(dense_layer_names(prefix.as_str(), extras));
        i = i + 1;
    }
    let lm_head = if tied_embeddings {
        None
    } else {
        Some("lm_head.weight".to_owned())
    };
    DenseDecoderWeightNames {
        token_embeddings: "model.embed_tokens.weight".to_owned(),
        final_norm: "model.norm.weight".to_owned(),
        lm_head,
        layers,
    }
}

/// What the layers of a model of the second generation have: biases but no norms of heads.
pub open spec fn qwen2_extras() -> DenseExtras {
    DenseExtras { input_biases: true, output_bias: false, head_norms: false }
}

/// What the layers of a model of the third generation have: norms of heads, and biases where the
/// configuration says so.
pub open spec fn qwen3_extras(attention_bias: bool) -> DenseExtras {
    DenseExtras { input_biases: attention_bias, output_bias: attention_bias, head_norms: true }
}

/// Whether a plan is that of a configuration.
pub open spec fn plan_of(
    plan: DenseDecoderExecutionPlan,
    config: QwenDenseConfig,
    extras: DenseExtras,
) -> bool {
    &&& plan.vocab_size == config.vocab_size->0
    &&& plan.hidden_size == config.hidden_size->0
    &&& plan.max_position_embeddings == positions(config.max_position_embeddings)
    &&& plan.rms_norm_eps == config.rms_norm_eps->0.narrow
    &&& plan.rope_theta == rope_theta(config)
    &&& plan.activation == DenseDecoderActivation::Silu
    &&& names_dense_decoder(
        plan.weights,
        config.num_hidden_layers->0 as nat,
        config.tie_word_embeddings == Some(true),
        extras,
    )
}

/// Whether a definition is that of a configuration.
pub open spec fn definition_of(
    definition: ModelDefinition,
    architecture: Seq<char>,
    hf_config: HfModelConfig,
    config: QwenDenseConfig,
    extras: DenseExtras,
) -> bool {
    &&& definition.wf()
    &&& bare_definition(
        definition,
        architecture,
        hf_config,
        qwen_execution(config),
        seq![RuntimeDtype::F32, RuntimeDtype::Fp16, RuntimeDtype::Bf16],
        Some(
            KvCacheModelLayout {
                num_layers: config.num_hidden_layers->0,
                kv_heads: kv_heads(config),
                head_dim: head_dim(config),
                kv_tensors_per_token: 2,
                bytes_per_token_per_layer: None,
                tensor_geometry: KvCacheTensorGeometry::Uniform,
            },
        ),
    )
    &&& definition.vocab_size == config.vocab_size
    &&& definition.max_context_length == Some(positions(config.max_position_embeddings))
    &&& definition.cache_architecture == ModelCacheArchitecture::PagedKv
    &&& definition.recurrent_state is None
    &&& definition.hybrid_decoder is None
    &&& definition.dense_decoder is Some
    &&& plan_of(definition.dense_decoder->0, config, extras)
    &&& definition.checkpoint_topology@ == (Topology {
        tensors: dense_tensors(
            definition.dense_decoder->0,
            dense_sizes(qwen_execution(config)),
            definition.dense_decoder->0.weights.layers@.len(),
        ),
        ..no_topology()
    })
}

/// Why the sizes of the projections of a configuration cannot be computed.
pub open spec fn projections_fault(architecture: Seq<char>, config: QwenDenseConfig) -> Option<
    Seq<char>,
> {
    if config.num_attention_heads->0 * head_dim(config) > usize::MAX {
        Some(invalid_message(architecture, "query projection size overflowed"@))
    } else if kv_heads(config) * head_dim(config) > usize::MAX {
        Some(invalid_message(architecture, "KV projection size overflowed"@))
    } else {
        None
    }
}

/// Why no definition can be made of a configuration, or of what was read in its place.
pub open spec fn definition_fault(
    architecture: Seq<char>,
    config: Result<QwenDenseConfig, String>,
) -> Option<Seq<char>> {
    match config {
        Err(message) => Some(
            invalid_message(
                architecture,
                "invalid Qwen dense config document: "@ + message@,
            ),
        ),
        Ok(config) => either(
            config_fault(architecture, config),
            projections_fault(architecture, config),
        ),
    }
}

fn read_qwen_config(architecture: &str, config: Result<QwenDenseConfig, String>) -> (typed: Result<
    QwenDenseConfig,
    ModelAdapterError,
>)
    ensures
        match typed {
            Ok(c) => config == Ok::<QwenDenseConfig, String>(c),
            Err(e) => config is Err && e@ == invalid_message(
                architecture@,
                "invalid Qwen dense config document: "@ + config->Err_0@,
            ),
        },
{
    match config {
        Ok(config) => Ok(config),
        Err(message) => Err(
            ModelAdapterError::invalid(
                architecture,
                cat2("invalid Qwen dense config document: ", message.as_str()).as_str(),
            ),
        ),
    }
}

fn resolve_head_dim(architecture: &str, config: &QwenDenseConfig, hidden: usize, heads: usize) -> (
dim: Result<usize, ModelAdapterError>)
    requires
        config.hidden_size == Some(hidden),
        config.num_attention_heads == Some(heads),
        hidden > 0,
    ensures
        match dim {
            Ok(n) => head_dim_fault(architecture@, *config) is None && n == head_dim(*config),
            Err(e) => head_dim_fault(architecture@, *config) == Some(e@),
        },
{
    let divisor: usize = match config.original_num_attention_heads {
        Some(n) => n,
        None => heads,
    };
    let follows = config.original_num_attention_heads.is_some() || config.head_dim.is_none();
    let dim: usize = if follows {
        if divisor == 0 || hidden % divisor != 0 {
            let text = cat5(
                "hidden_size (",
                decimal_usize(hidden).as_str(),
                ") must be divisible by attention head divisor (",
                decimal_usize(divisor).as_str(),
                ")",
            );
            return Err(ModelAdapterError::invalid(architecture, text.as_str()));
        }
        hidden / divisor
    } else {
        match config.head_dim {
            Some(n) => {
                if n == 0 {
                    return Err(
                        ModelAdapterError::invalid(architecture, "head_dim must be non-zero"),
                    );
                }
                n
            },
            None => 0,
        }
    };
    if dim % 2 != 0 {
        let text = cat2(
            "NeoX RoPE requires an even head_dim, found ",
            decimal_usize(dim).as_str(),
        );
        return Err(ModelAdapterError::invalid(architecture, text.as_str()));
    }
    Ok(dim)
}

fn check_features(architecture: &str, config: &QwenDenseConfig) -> (valid: Result<
    (),
    ModelAdapterError,
>)
    ensures
        ({
            let fault = either(
                activation_fault(architecture@, *config),
                either(window_fault(architecture@, *config), rope_fault(architecture@, *config)),
            );
            match valid {
                Ok(_) => fault is None,
                Err(e) => fault == Some(e@),
            }
        }),
{
    match &config.hidden_act {
        Some(name) => {
            if !same_text(name.as_str(), "silu") {
                let text = cat3(
                    "unsupported hidden_act ",
                    name.as_str(),
                    "; shared dense decoder requires silu",
                );
                return Err(ModelAdapterError::invalid(architecture, text.as_str()));
            }
        },
        None => {
            return Err(ModelAdapterError::missing_field(architecture, "hidden_act"));
        },
    }
    if let Some(window) = config.use_sliding_window {
        if window {
            let text = cat3(
                "sliding-window attention is not implemented (sliding_window=",
                text_of_number(config.sliding_window).as_str(),
                ")",
            );
            return Err(ModelAdapterError::invalid(architecture, text.as_str()));
        }
    }
    validate_default_rope(architecture, config)
}

fn build_qwen_definition(
    hf_config: &HfModelConfig,
    config: &QwenDenseConfig,
    architecture: &'static str,
    extras: DenseExtras,
) -> (definition: Result<ModelDefinition, ModelAdapterError>)
    ensures
        match definition {
            Ok(d) => config_fault(architecture@, *config) is None && projections_fault(
                architecture@,
                *config,
            ) is None && definition_of(d, architecture@, *hf_config, *config, extras),
            Err(e) => either(
                config_fault(architecture@, *config),
                projections_fault(architecture@, *config),
            ) == Some(e@),
        },
{
    let vocab_size: usize = required_usize(architecture, "vocab_size", config.vocab_size)?;
    let num_layers: usize = required_usize(
        architecture,
        "num_hidden_layers",
        config.num_hidden_layers,
    )?;
    let hidden_size: usize = required_usize(architecture, "hidden_size", config.hidden_size)?;
    let intermediate_size: usize = required_usize(
        architecture,
        "intermediate_size",
        config.intermediate_size,
    )?;
    let num_attention_heads: usize = required_usize(
        architecture,
        "num_attention_heads",
        config.num_attention_heads,
    )?;
    let num_key_value_heads: usize = match config.num_key_value_heads {
        Some(n) => n,
        None => num_attention_heads,
    };
    if num_key_value_heads == 0 || num_attention_heads % num_key_value_heads != 0 {
        let text = cat5(
            "num_attention_heads (",
            decimal_usize(num_attention_heads).as_str(),
            ") must be divisible by non-zero num_key_value_heads (",
            decimal_usize(num_key_value_heads).as_str(),
            ")",
        );
        return Err(ModelAdapterError::invalid(architecture, text.as_str()));
    }
    let head_dim: usize = resolve_head_dim(
        architecture,
        config,
        hidden_size,
        num_attention_heads,
    )?;
    check_features(architecture, config)?;
    let rms_norm_eps: u32 = match config.rms_norm_eps {
        Some(number) => {
            if !number.is_narrow_finite() || number.is_narrow_negative() {
                return Err(
                    ModelAdapterError::invalid(
                        architecture,
                        "rms_norm_eps must be finite and non-negative",
                    ),
                );
            }
            number.narrow
        },
        None => {
            return Err(ModelAdapterError::missing_field(architecture, "rms_norm_eps"));
        },
    };
    let theta: u32 = match config.rope_theta {
        Some(number) => number.narrow,
        None => match config.rope_parameters_theta {
            Some(number) => number.narrow,
            None => DEFAULT_ROPE_THETA,
        },
    };
    if theta == 0 || theta >= 0x7f80_0000 {
        return Err(
            ModelAdapterError::invalid(architecture, "rope_theta must be finite and positive"),
        );
    }
    let max_position_embeddings: usize = match config.max_position_embeddings {
        Some(n) => n,
        None => 32_768,
    };
    if max_position_embeddings == 0 {
        return Err(
            ModelAdapterError::invalid(architecture, "max_position_embeddings must be non-zero"),
        );
    }
    let execution = ModelExecutionArchitecture::Transformer {
        attention: AttentionArchitecture::MultiHead {
            num_attention_heads,
            num_key_value_heads,
            head_dim,
        },
        feed_forward: FeedForwardArchitecture::Dense { intermediate_size },
    };
    let tied = match config.tie_word_embeddings {
        Some(tied) => tied,
        None => false,
    };
    let plan = DenseDecoderExecutionPlan {
        vocab_size,
        hidden_size,
        max_position_embeddings,
        rms_norm_eps,
        rope_theta: theta,
        activation: DenseDecoderActivation::Silu,
        weights: dense_names(num_layers, tied, extras),
    };
    let topology = dense_decoder_checkpoint_topology(architecture, execution, &plan)?;
    let mut dtypes: Vec<RuntimeDtype> = Vec::new();
    dtypes.push(RuntimeDtype::F32);
    dtypes.push(RuntimeDtype::Fp16);
    dtypes.push(RuntimeDtype::Bf16);
    proof {
        assert(dtypes@ =~= seq![RuntimeDtype::F32, RuntimeDtype::Fp16, RuntimeDtype::Bf16]);
    }
    let layout = KvCacheModelLayout::multi_tensor(num_layers, num_key_value_heads, head_dim, 2);
    let bare = ModelDefinition::new(architecture, hf_config, execution, dtypes, Some(layout));
    Ok(
        bare.with_serving_metadata(vocab_size, max_position_embeddings).with_checkpoint_topology(
            topology,
        ).with_dense_decoder(plan),
    )
}

/// The definition of a model of the second generation. `config` is what was read of the
/// configuration document, or why it could not be read.
pub fn build_qwen2_definition(
    hf_config: &HfModelConfig,
    config: Result<QwenDenseConfig, String>,
) -> (definition: Result<ModelDefinition, ModelAdapterError>)
    ensures
        match definition {
            Ok(d) => definition_fault("Qwen2ForCausalLM"@, config) is None && definition_of(
                d,
                "Qwen2ForCausalLM"@,
                *hf_config,
                config->Ok_0,
                qwen2_extras(),
            ),
            Err(e) => definition_fault("Qwen2ForCausalLM"@, config) == Some(e@),
        },
{
    let typed = read_qwen_config("Qwen2ForCausalLM", config)?;
    build_qwen_definition(
        hf_config,
        &typed,
        "Qwen2ForCausalLM",
        DenseExtras { input_biases: true, output_bias: false, head_norms: false },
    )
}

/// The definition of a model of the third generation.
pub fn build_qwen3_definition(
    hf_config: &HfModelConfig,
    config: Result<QwenDenseConfig, String>,
) -> (definition: Result<ModelDefinition, ModelAdapterError>)
    ensures
        match definition {
            Ok(d) => definition_fault("Qwen3ForCausalLM"@, config) is None && definition_of(
                d,
                "Qwen3ForCausalLM"@,
                *hf_config,
                config->Ok_0,
                qwen3_extras(config->Ok_0.attention_bias == Some(true)),
            ),
            Err(e) => definition_fault("Qwen3ForCausalLM"@, config) == Some(e@),
        },
{
    let typed = read_qwen_config("Qwen3ForCausalLM", config)?;
    let biased = match typed.attention_bias {
        Some(biased) => biased,
        None => false,
    };
    build_qwen_definition(
        hf_config,
        &typed,
        "Qwen3ForCausalLM",
        DenseExtras { input_biases: biased, output_bias: biased, head_norms: true },
    )
}

} // verus!
