//! What the registry promises of the models with mixed or latent attention that it defines: the
//! weights that a plan names are those of the checkpoint, with the shapes that the configuration
//! gives.
use vstd::prelude::*;

use crate::checkpoint::TensorRequirement;
use crate::decoder_plans::{
    cache_layers, shaped, with_feed_forward, DecoderNormalization, DenseFeedForwardWeightNames,
    GatedDeltaNetWeightNames, HybridDecoderExecutionPlan, HybridDecoderLayerKind,
    HybridDecoderLayerWeightNames, HybridFeedForward, HybridFullAttentionConfig,
    HybridFullAttentionWeightNames, HybridLinearAttentionConfig,
    HybridMultiLatentAttentionWeightNames, KeyGatedDeltaWeightNames, MoeFeedForwardWeightNames,
    MultiLatentQueryWeightNames, RotaryEmbeddingStyle,
};
use crate::dense_laws::{among, is_named};
use crate::kv_cache::KvCacheTensorGeometry;
use crate::model_config::HfModelConfig;
use crate::model_definition::{
    hybrid_root, hybrid_sizes, hybrid_tensors, with_hybrid_layer, HybridSizes, ModelDefinition,
};
use crate::model_registry::{AdapterConfig, ModelRegistry, ModelRegistryError};
use crate::models::{DenseDecoderActivation, ModelCacheArchitecture};
use crate::qwen3_5::{Qwen3_5TextConfig, RotaryWidth};
use crate::text::decimal;

verus! {

/// Whether a registry has defined a model from a configuration.
pub open spec fn defined_by(
    definition: ModelDefinition,
    hf_config: HfModelConfig,
    config: AdapterConfig,
) -> bool {
    exists|registry: ModelRegistry, model_path: &str| #[trigger]
        call_ensures(
            ModelRegistry::definition,
            (registry, model_path, &hf_config, config),
            Ok::<ModelDefinition, ModelRegistryError>(definition),
        )
}

/// A dense feed-forward network is named after the roles of its weights.
pub open spec fn named_feed_forward(w: DenseFeedForwardWeightNames, at: Seq<char>) -> bool {
    &&& w.gate_weight@ == at + ".gate_proj.weight"@
    &&& w.up_weight@ == at + ".up_proj.weight"@
    &&& w.down_weight@ == at + ".down_proj.weight"@
}

/// The weights of a mixture of experts are named after their roles. The first weight of a routed
/// expert opens it, the second leads down and the third up.
pub open spec fn named_experts(
    w: MoeFeedForwardWeightNames,
    at: Seq<char>,
    routed: int,
    shared: bool,
    corrected: bool,
) -> bool {
    &&& w.gate_weight@ == at + ".mlp.gate.weight"@
    &&& is_named(w.correction_bias, corrected, at + ".mlp.gate.e_score_correction_bias"@)
    &&& w.experts@.len() == routed
    &&& forall|e: int|
        0 <= e < routed ==> {
            let expert = at + ".mlp.experts."@ + decimal(e as nat);
            &&& (#[trigger] w.experts@[e]).gate_weight@ == expert + ".w1.weight"@
            &&& w.experts@[e].down_weight@ == expert + ".w2.weight"@
            &&& w.experts@[e].up_weight@ == expert + ".w3.weight"@
        }
    &&& w.shared_expert is Some <==> shared
    &&& w.shared_expert matches Some(weights) ==> named_feed_forward(
        weights,
        at + ".mlp.shared_experts"@,
    )
}

/// The weights of latent attention are named after their roles.
pub open spec fn named_latent(
    w: HybridMultiLatentAttentionWeightNames,
    at: Seq<char>,
    rank: Option<usize>,
) -> bool {
    &&& match w.query {
        MultiLatentQueryWeightNames::Direct { weight } => rank is None && weight@ == at
            + ".self_attn.q_proj.weight"@,
        MultiLatentQueryWeightNames::LowRank { a_weight, a_norm, b_weight } => rank is Some
            && a_weight@ == at + ".self_attn.q_a_proj.weight"@ && a_norm@ == at
            + ".self_attn.q_a_layernorm.weight"@ && b_weight@ == at
            + ".self_attn.q_b_proj.weight"@,
    }
    &&& w.kv_a_weight@ == at + ".self_attn.kv_a_proj_with_mqa.weight"@
    &&& w.kv_a_norm@ == at + ".self_attn.kv_a_layernorm.weight"@
    &&& w.kv_b_weight@ == at + ".self_attn.kv_b_proj.weight"@
    &&& w.output_weight@ == at + ".self_attn.o_proj.weight"@
}

/// The weights of full attention are named after their roles.
pub open spec fn named_attention(w: HybridFullAttentionWeightNames, at: Seq<char>) -> bool {
    &&& w.query_weight@ == at + ".self_attn.q_proj.weight"@
    &&& w.query_norm@ == at + ".self_attn.q_norm.weight"@
    &&& w.key_weight@ == at + ".self_attn.k_proj.weight"@
    &&& w.key_norm@ == at + ".self_attn.k_norm.weight"@
    &&& w.value_weight@ == at + ".self_attn.v_proj.weight"@
    &&& w.output_weight@ == at + ".self_attn.o_proj.weight"@
}

/// The weights of a gated delta network are named after their roles.
pub open spec fn named_gated(w: GatedDeltaNetWeightNames, at: Seq<char>) -> bool {
    &&& w.a_log@ == at + ".linear_attn.A_log"@
    &&& w.conv1d_weight@ == at + ".linear_attn.conv1d.weight"@
    &&& w.dt_bias@ == at + ".linear_attn.dt_bias"@
    &&& w.in_proj_a_weight@ == at + ".linear_attn.in_proj_a.weight"@
    &&& w.in_proj_b_weight@ == at + ".linear_attn.in_proj_b.weight"@
    &&& w.in_proj_qkv_weight@ == at + ".linear_attn.in_proj_qkv.weight"@
    &&& w.in_proj_z_weight@ == at + ".linear_attn.in_proj_z.weight"@
    &&& w.norm_weight@ == at + ".linear_attn.norm.weight"@
    &&& w.output_weight@ == at + ".linear_attn.out_proj.weight"@
}

/// The weights of key-gated delta attention are named after their roles.
pub open spec fn named_key_gated(w: KeyGatedDeltaWeightNames, at: Seq<char>) -> bool {
    &&& w.a_log@ == at + ".self_attn.A_log"@
    &&& w.dt_bias@ == at + ".self_attn.dt_bias"@
    &&& w.query_weight@ == at + ".self_attn.q_proj.weight"@
    &&& w.key_weight@ == at + ".self_attn.k_proj.weight"@
    &&& w.value_weight@ == at + ".self_attn.v_proj.weight"@
    &&& w.beta_weight@ == at + ".self_attn.b_proj.weight"@
    &&& w.forget_a_weight@ == at + ".self_attn.f_a_proj.weight"@
    &&& w.forget_b_weight@ == at + ".self_attn.f_b_proj.weight"@
    &&& w.gate_a_weight@ == at + ".self_attn.g_a_proj.weight"@
    &&& w.gate_b_weight@ == at + ".self_attn.g_b_proj.weight"@
    &&& w.query_conv_weight@ == at + ".self_attn.q_conv1d.weight"@
    &&& w.key_conv_weight@ == at + ".self_attn.k_conv1d.weight"@
    &&& w.value_conv_weight@ == at + ".self_attn.v_conv1d.weight"@
    &&& w.output_norm@ == at + ".self_attn.o_norm.weight"@
    &&& w.output_weight@ == at + ".self_attn.o_proj.weight"@
}

/// The norms of a layer are named after their roles.
pub open spec fn named_norms(layer: HybridDecoderLayerWeightNames, at: Seq<char>) -> bool {
    &&& layer.input_norm@ == at + ".input_layernorm.weight"@
    &&& layer.post_attention_norm@ == at + ".post_attention_layernorm.weight"@
}

/// The number of the first `n` layers whose tokens are mixed by attention that keeps keys.
pub open spec fn keeping(layers: Seq<HybridDecoderLayerWeightNames>, n: int) -> int
    decreases n,
{
    if n <= 0 {
        0
    } else {
        keeping(layers, n - 1) + match layers[n - 1].mixer {
            HybridDecoderLayerKind::FullAttention { .. } => 1int,
            HybridDecoderLayerKind::MultiLatentAttention { .. } => 1int,
            HybridDecoderLayerKind::GatedDeltaNet { .. } => 0int,
            HybridDecoderLayerKind::KeyGatedDelta { .. } => 0int,
        }
    }
}

/// The layers that keep keys are counted.
pub proof fn lemma_keeping(layers: Seq<HybridDecoderLayerWeightNames>, n: int)
    requires
        0 <= n <= layers.len(),
    ensures
        keeping(layers, n) == cache_layers(layers, n as nat),
        0 <= keeping(layers, n) <= n,
    decreases n,
{
    if n > 0 {
        lemma_keeping(layers, n - 1);
    }
}

/// Whether a layer of a Qwen3.5 model has full attention: where the configuration says so of the
/// layer, or else every so many layers.
pub open spec fn full_attention(config: Qwen3_5TextConfig, i: int) -> bool {
    if config.layer_types@.len() > 0 {
        config.layer_types@[i]@ == "full_attention"@
    } else {
        (i + 1) % (config.full_attention_interval->0 as int) == 0
    }
}

/// In every layer the plan of a Qwen3.5 model gives each role the checkpoint name of that role. A layer
/// has full attention or a gated delta network as the configuration says, and the layers of each kind
/// are numbered in order.
pub proof fn qwen3_5_weights_are_named_after_their_roles(
    definition: ModelDefinition,
    hf_config: HfModelConfig,
    config: Qwen3_5TextConfig,
    width: RotaryWidth,
    rotary: Result<(), String>,
    i: int,
)
    requires
        defined_by(
            definition,
            hf_config,
            AdapterConfig::Qwen3_5 { config: Ok(config), width, rotary },
        ),
        0 <= i < config.num_hidden_layers->0,
    ensures
        definition.hybrid_decoder is Some,
        ({
            let weights = definition.hybrid_decoder->0.weights;
            let layer = weights.layers@[i];
            let at = "model.language_model.layers."@ + decimal(i as nat);
            &&& weights.token_embeddings@ == "model.language_model.embed_tokens.weight"@
            &&& weights.final_norm@ == "model.language_model.norm.weight"@
            &&& is_named(
                weights.lm_head,
                config.tie_word_embeddings != Some(true),
                "lm_head.weight"@,
            )
            &&& weights.layers@.len() == config.num_hidden_layers->0
            &&& named_norms(layer, at)
            &&& layer.feed_forward matches HybridFeedForward::Dense {
                intermediate_size,
                weights: dense,
            } && Some(intermediate_size) == config.intermediate_size && named_feed_forward(
                dense,
                at + ".mlp"@,
            )
            &&& if full_attention(config, i) {
                layer.mixer matches HybridDecoderLayerKind::FullAttention {
                    cache_layer_index,
                    weights: mixer,
                } && cache_layer_index == keeping(weights.layers@, i) && named_attention(mixer, at)
            } else {
                layer.mixer matches HybridDecoderLayerKind::GatedDeltaNet {
                    state_layer_index,
                    weights: mixer,
                } && state_layer_index == i - keeping(weights.layers@, i) && named_gated(mixer, at)
            }
        }),
{
    reveal_strlit("model.language_model");
    reveal_strlit(".layers.");
    reveal_strlit("model.language_model.layers.");
    assert("model.language_model"@ + ".layers."@ =~= "model.language_model.layers."@);
    let weights = definition.hybrid_decoder->0.weights;
    assert(crate::qwen3_5::names_qwen3_5_layer(weights.layers@[i], config, i as nat));
    lemma_full_before(weights.layers@, config, i);
    lemma_keeping(weights.layers@, i);
    assert(crate::decoder_plans::named(weights.lm_head) is Some <==> weights.lm_head is Some);
}

/// The layers with full attention are those that keep keys.
proof fn lemma_full_before(
    layers: Seq<HybridDecoderLayerWeightNames>,
    config: Qwen3_5TextConfig,
    n: int,
)
    requires
        0 <= n <= layers.len(),
        forall|i: int|
            0 <= i < layers.len() ==> crate::qwen3_5::names_qwen3_5_layer(
                #[trigger] layers[i],
                config,
                i as nat,
            ),
    ensures
        crate::qwen3_5::full_before(config, n as nat) == keeping(layers, n),
    decreases n,
{
    if n > 0 {
        lemma_full_before(layers, config, n - 1);
        assert(crate::qwen3_5::names_qwen3_5_layer(layers[n - 1], config, (n - 1) as nat));
    }
}

/// A Qwen3.5 model has the sizes of its configuration. Its layers with full attention keep keys and
/// values, and the others keep a state.
pub proof fn qwen3_5_models_have_the_sizes_of_their_configuration(
    definition: ModelDefinition,
    hf_config: HfModelConfig,
    config: Qwen3_5TextConfig,
    width: RotaryWidth,
    rotary: Result<(), String>,
)
    requires
        defined_by(
            definition,
            hf_config,
            AdapterConfig::Qwen3_5 { config: Ok(config), width, rotary },
        ),
    ensures
        definition.hybrid_decoder is Some,
        ({
            let plan = definition.hybrid_decoder->0;
            let layers = plan.weights.layers@;
            let full = keeping(layers, layers.len() as int);
            let theta = match (config.rope_theta, config.rope_parameters_theta) {
                (Some(number), _) => number.narrow,
                (None, Some(number)) => number.narrow,
                (None, None) => 0x461c_4000u32,
            };
            &&& definition.architecture@ == "Qwen3_5ForConditionalGeneration"@
            &&& Some(layers.len() as usize) == config.num_hidden_layers
            &&& 0 < full < layers.len()
            &&& definition.kv_cache_layout matches Some(layout) && layout.num_layers == full
                && Some(layout.kv_heads) == config.num_key_value_heads && Some(layout.head_dim)
                == config.head_dim && layout.kv_tensors_per_token == 2
                && layout.bytes_per_token_per_layer is None && layout.tensor_geometry
                == KvCacheTensorGeometry::Uniform
            &&& definition.cache_architecture matches ModelCacheArchitecture::HybridState {
                full_attention_layer_count,
                recurrent_state_layer_count,
            } && full_attention_layer_count == full && recurrent_state_layer_count == layers.len()
                - full
            &&& definition.recurrent_state matches Some(state) && state.layer_count
                == layers.len() - full && Some(state.conv_kernel_dim)
                == config.linear_conv_kernel_dim && Some(state.key_head_dim)
                == config.linear_key_head_dim && Some(state.value_head_dim)
                == config.linear_value_head_dim && Some(state.num_key_heads)
                == config.linear_num_key_heads && Some(state.num_value_heads)
                == config.linear_num_value_heads
            &&& definition.vocab_size == config.vocab_size
            &&& definition.max_context_length == (if config.max_position_embeddings is Some {
                config.max_position_embeddings
            } else {
                Some(32_768usize)
            })
            &&& definition.eos_token_ids@ == hf_config@.eos_token_ids
            &&& definition.dense_decoder is None
            &&& Some(plan.vocab_size) == config.vocab_size
            &&& Some(plan.hidden_size) == config.hidden_size
            &&& Some(plan.max_position_embeddings) == definition.max_context_length
            &&& plan.rms_norm_eps == config.rms_norm_eps->0.narrow
            &&& plan.rope_theta == theta
            &&& plan.normalization == DecoderNormalization::GemmaRms
            &&& plan.activation == DenseDecoderActivation::Silu
            &&& plan.full_attention matches HybridFullAttentionConfig::MultiHead {
                num_attention_heads,
                num_key_value_heads,
                head_dim,
                rotary_dim,
                output_gate,
                rotary_embedding,
            } && Some(num_attention_heads) == config.num_attention_heads && Some(
                num_key_value_heads,
            ) == config.num_key_value_heads && Some(head_dim) == config.head_dim && Some(rotary_dim)
                == width.dim && output_gate == (config.attn_output_gate != Some(false))
                && rotary_embedding.theta == theta && rotary_embedding.style
                == RotaryEmbeddingStyle::Neox
            &&& plan.linear_attention matches Some(
                HybridLinearAttentionConfig::GatedDeltaNet {
                    conv_kernel_dim,
                    key_head_dim,
                    value_head_dim,
                    num_key_heads,
                    num_value_heads,
                },
            ) && Some(conv_kernel_dim) == config.linear_conv_kernel_dim && Some(key_head_dim)
                == config.linear_key_head_dim && Some(value_head_dim)
                == config.linear_value_head_dim && Some(num_key_heads)
                == config.linear_num_key_heads && Some(num_value_heads)
                == config.linear_num_value_heads
        }),
{
    let plan = definition.hybrid_decoder->0;
    let layers = plan.weights.layers@;
    lemma_keeping(layers, layers.len() as int);
    lemma_full_before(layers, config, layers.len() as int);
}

/// The second list begins with the first.
pub open spec fn extends(a: Seq<TensorRequirement>, b: Seq<TensorRequirement>) -> bool {
    a.len() <= b.len() && forall|k: int| 0 <= k < a.len() ==> #[trigger] b[k] == a[k]
}

/// What a list holds, a longer one holds too.
pub proof fn lemma_extends(a: Seq<TensorRequirement>, b: Seq<TensorRequirement>)
    requires
        extends(a, b),
    ensures
        forall|name: Seq<char>, shape: Seq<usize>| #[trigger]
            among(a, name, shape) ==> among(b, name, shape),
{
    assert forall|name: Seq<char>, shape: Seq<usize>| #[trigger]
        among(a, name, shape) implies among(b, name, shape) by {
        let tensor = TensorRequirement { name, shape: Some(shape) };
        let k = choose|k: int| 0 <= k < a.len() && a[k] == tensor;
        assert(b[k] == tensor);
    }
}

/// What stands at a place is held.
pub proof fn lemma_at(tensors: Seq<TensorRequirement>, k: int, name: Seq<char>, shape: Seq<usize>)
    requires
        0 <= k < tensors.len(),
        tensors[k] == shaped(name, shape),
    ensures
        among(tensors, name, shape),
{
}

/// The weights of a feed-forward network have their shapes.
pub open spec fn holds_feed_forward(
    tensors: Seq<TensorRequirement>,
    w: DenseFeedForwardWeightNames,
    hidden: usize,
    intermediate: usize,
) -> bool {
    &&& among(tensors, w.gate_weight@, seq![intermediate, hidden])
    &&& among(tensors, w.up_weight@, seq![intermediate, hidden])
    &&& among(tensors, w.down_weight@, seq![hidden, intermediate])
}

/// A feed-forward network is required with its shapes.
pub proof fn lemma_feed_forward(
    tensors: Seq<TensorRequirement>,
    w: DenseFeedForwardWeightNames,
    hidden: usize,
    intermediate: usize,
)
    ensures
        extends(tensors, with_feed_forward(tensors, w, hidden, intermediate)),
        holds_feed_forward(
            with_feed_forward(tensors, w, hidden, intermediate),
            w,
            hidden,
            intermediate,
        ),
{
    let all = with_feed_forward(tensors, w, hidden, intermediate);
    let n = tensors.len() as int;
    lemma_at(all, n, w.gate_weight@, seq![intermediate, hidden]);
    lemma_at(all, n + 1, w.up_weight@, seq![intermediate, hidden]);
    lemma_at(all, n + 2, w.down_weight@, seq![hidden, intermediate]);
}

/// The weights of full attention have their shapes.
pub open spec fn holds_attention(
    tensors: Seq<TensorRequirement>,
    w: HybridFullAttentionWeightNames,
    hidden: usize,
    projected: usize,
    query: usize,
    kv: usize,
    head: usize,
) -> bool {
    &&& among(tensors, w.query_weight@, seq![projected, hidden])
    &&& among(tensors, w.query_norm@, seq![head])
    &&& among(tensors, w.key_weight@, seq![kv, hidden])
    &&& among(tensors, w.key_norm@, seq![head])
    &&& among(tensors, w.value_weight@, seq![kv, hidden])
    &&& among(tensors, w.output_weight@, seq![hidden, query])
}

/// The weights of a gated delta network have their shapes.
pub open spec fn holds_gated(
    tensors: Seq<TensorRequirement>,
    w: GatedDeltaNetWeightNames,
    hidden: usize,
    mixed: usize,
    values: usize,
    kernel: usize,
    value_head: usize,
    heads: usize,
) -> bool {
    &&& among(tensors, w.a_log@, seq![heads])
    &&& among(tensors, w.conv1d_weight@, seq![mixed, 1usize, kernel])
    &&& among(tensors, w.dt_bias@, seq![heads])
    &&& among(tensors, w.in_proj_a_weight@, seq![heads, hidden])
    &&& among(tensors, w.in_proj_b_weight@, seq![heads, hidden])
    &&& among(tensors, w.in_proj_qkv_weight@, seq![mixed, hidden])
    &&& among(tensors, w.in_proj_z_weight@, seq![values, hidden])
    &&& among(tensors, w.norm_weight@, seq![value_head])
    &&& among(tensors, w.output_weight@, seq![hidden, values])
}

/// The tensors of a layer of a hybrid decoder have their shapes.
pub open spec fn holds_hybrid_layer(
    tensors: Seq<TensorRequirement>,
    layer: HybridDecoderLayerWeightNames,
    hidden: usize,
    sizes: HybridSizes,
) -> bool {
    &&& among(tensors, layer.input_norm@, seq![hidden])
    &&& among(tensors, layer.post_attention_norm@, seq![hidden])
    &&& layer.feed_forward matches HybridFeedForward::Dense { intermediate_size, weights }
        ==> holds_feed_forward(tensors, weights, hidden, intermediate_size)
    &&& layer.mixer matches HybridDecoderLayerKind::FullAttention { cache_layer_index, weights }
        ==> holds_attention(
        tensors,
        weights,
        hidden,
        sizes.projected_query_size,
        sizes.query_size,
        sizes.kv_size,
        sizes.head_dim,
    )
    &&& layer.mixer matches HybridDecoderLayerKind::GatedDeltaNet { state_layer_index, weights }
        ==> holds_gated(
        tensors,
        weights,
        hidden,
        sizes.conv_dim,
        sizes.linear_value_size,
        sizes.conv_kernel_dim,
        sizes.value_head_dim,
        sizes.num_value_heads,
    )
}

#[verifier::rlimit(60)]
proof fn lemma_hybrid_layer(
    tensors: Seq<TensorRequirement>,
    layer: HybridDecoderLayerWeightNames,
    h: usize,
    sizes: HybridSizes,
)
    ensures
        extends(tensors, with_hybrid_layer(tensors, layer, h, sizes)),
        holds_hybrid_layer(with_hybrid_layer(tensors, layer, h, sizes), layer, h, sizes),
{
    let all = with_hybrid_layer(tensors, layer, h, sizes);
    let norms = tensors.push(shaped(layer.input_norm@, seq![h])).push(
        shaped(layer.post_attention_norm@, seq![h]),
    );
    lemma_at(norms, tensors.len() as int, layer.input_norm@, seq![h]);
    lemma_at(norms, tensors.len() as int + 1, layer.post_attention_norm@, seq![h]);
    let dense = match layer.feed_forward {
        HybridFeedForward::Dense { intermediate_size, weights } => with_feed_forward(
            norms,
            weights,
            h,
            intermediate_size,
        ),
        HybridFeedForward::MixtureOfExperts { config, weights } => norms,
    };
    if let HybridFeedForward::Dense { intermediate_size, weights } = layer.feed_forward {
        lemma_feed_forward(norms, weights, h, intermediate_size);
    }
    assert(extends(norms, dense));
    lemma_extends(norms, dense);
    let n = dense.len() as int;
    assert(extends(dense, all));
    lemma_extends(dense, all);
    match layer.mixer {
        HybridDecoderLayerKind::FullAttention { cache_layer_index, weights } => {
            lemma_at(all, n, weights.query_weight@, seq![sizes.projected_query_size, h]);
            lemma_at(all, n + 1, weights.query_norm@, seq![sizes.head_dim]);
            lemma_at(all, n + 2, weights.key_weight@, seq![sizes.kv_size, h]);
            lemma_at(all, n + 3, weights.key_norm@, seq![sizes.head_dim]);
            lemma_at(all, n + 4, weights.value_weight@, seq![sizes.kv_size, h]);
            lemma_at(all, n + 5, weights.output_weight@, seq![h, sizes.query_size]);
        },
        HybridDecoderLayerKind::GatedDeltaNet { state_layer_index, weights } => {
            lemma_at(all, n, weights.a_log@, seq![sizes.num_value_heads]);
            lemma_at(
                all,
                n + 1,
                weights.conv1d_weight@,
                seq![sizes.conv_dim, 1usize, sizes.conv_kernel_dim],
            );
            lemma_at(all, n + 2, weights.dt_bias@, seq![sizes.num_value_heads]);
            lemma_at(all, n + 3, weights.in_proj_a_weight@, seq![sizes.num_value_heads, h]);
            lemma_at(all, n + 4, weights.in_proj_b_weight@, seq![sizes.num_value_heads, h]);
            lemma_at(all, n + 5, weights.in_proj_qkv_weight@, seq![sizes.conv_dim, h]);
            lemma_at(all, n + 6, weights.in_proj_z_weight@, seq![sizes.linear_value_size, h]);
            lemma_at(all, n + 7, weights.norm_weight@, seq![sizes.value_head_dim]);
            lemma_at(all, n + 8, weights.output_weight@, seq![h, sizes.linear_value_size]);
        },
        _ => {},
    }
}

proof fn lemma_hybrid_layers(
    plan: HybridDecoderExecutionPlan,
    sizes: HybridSizes,
    n: nat,
    i: int,
)
    requires
        0 <= i < n <= plan.weights.layers@.len(),
    ensures
        holds_hybrid_layer(
            hybrid_tensors(plan, sizes, n),
            plan.weights.layers@[i],
            plan.hidden_size,
            sizes,
        ),
    decreases n,
{
    let before = hybrid_tensors(plan, sizes, (n - 1) as nat);
    lemma_hybrid_layer(before, plan.weights.layers@[n - 1], plan.hidden_size, sizes);
    if i < n - 1 {
        lemma_hybrid_layers(plan, sizes, (n - 1) as nat, i);
        lemma_extends(before, hybrid_tensors(plan, sizes, n));
    }
}

/// What stands outside the layers has its shape.
pub open spec fn holds_root(
    tensors: Seq<TensorRequirement>,
    plan: HybridDecoderExecutionPlan,
) -> bool {
    let table = seq![plan.vocab_size, plan.hidden_size];
    &&& among(tensors, plan.weights.token_embeddings@, table)
    &&& among(tensors, plan.weights.final_norm@, seq![plan.hidden_size])
    &&& plan.weights.lm_head matches Some(name) ==> among(tensors, name@, table)
}

/// What stands outside the layers is required with its shape.
pub proof fn lemma_root(plan: HybridDecoderExecutionPlan)
    ensures
        holds_root(hybrid_root(plan), plan),
{
    let all = hybrid_root(plan);
    let table = seq![plan.vocab_size, plan.hidden_size];
    lemma_at(all, 0, plan.weights.token_embeddings@, table);
    lemma_at(all, 1, plan.weights.final_norm@, seq![plan.hidden_size]);
    if plan.weights.lm_head is Some {
        lemma_at(all, 2, plan.weights.lm_head->0@, table);
    }
}

proof fn lemma_hybrid_root(plan: HybridDecoderExecutionPlan, sizes: HybridSizes, n: nat)
    requires
        n <= plan.weights.layers@.len(),
    ensures
        holds_root(hybrid_tensors(plan, sizes, n), plan),
    decreases n,
{
    if n == 0 {
        lemma_root(plan);
    } else {
        let before = hybrid_tensors(plan, sizes, (n - 1) as nat);
        lemma_hybrid_root(plan, sizes, (n - 1) as nat);
        lemma_hybrid_layer(before, plan.weights.layers@[n - 1], plan.hidden_size, sizes);
        lemma_extends(before, hybrid_tensors(plan, sizes, n));
    }
}

/// The checkpoint of a Qwen3.5 model must hold every weight that the plan names, with the shape that
/// the configuration gives to its role: queries are projected with their gates where there are gates,
/// and a gated delta network convolves its queries, keys and values together.
pub proof fn qwen3_5_checkpoints_hold_the_planned_weights(
    definition: ModelDefinition,
    hf_config: HfModelConfig,
    config: Qwen3_5TextConfig,
    width: RotaryWidth,
    rotary: Result<(), String>,
    i: int,
)
    requires
        defined_by(
            definition,
            hf_config,
            AdapterConfig::Qwen3_5 { config: Ok(config), width, rotary },
        ),
        0 <= i < config.num_hidden_layers->0,
    ensures
        ({
            let tensors = definition.checkpoint_topology@.tensors;
            let plan = definition.hybrid_decoder->0;
            let layer = plan.weights.layers@[i];
            let hidden = config.hidden_size->0;
            let query = config.num_attention_heads->0 * config.head_dim->0;
            let kv = config.num_key_value_heads->0 * config.head_dim->0;
            let gates: int = if config.attn_output_gate == Some(false) {
                1
            } else {
                2
            };
            let keys = config.linear_num_key_heads->0 * config.linear_key_head_dim->0;
            let values = config.linear_num_value_heads->0 * config.linear_value_head_dim->0;
            &&& holds_root(tensors, plan)
            &&& among(tensors, layer.input_norm@, seq![hidden])
            &&& among(tensors, layer.post_attention_norm@, seq![hidden])
            &&& layer.feed_forward is Dense
            &&& holds_feed_forward(
                tensors,
                layer.feed_forward->Dense_weights,
                hidden,
                config.intermediate_size->0,
            )
            &&& layer.mixer matches HybridDecoderLayerKind::FullAttention {
                cache_layer_index,
                weights,
            } ==> holds_attention(
                tensors,
                weights,
                hidden,
                (query * gates) as usize,
                query as usize,
                kv as usize,
                config.head_dim->0,
            )
            &&& layer.mixer matches HybridDecoderLayerKind::GatedDeltaNet {
                state_layer_index,
                weights,
            } ==> holds_gated(
                tensors,
                weights,
                hidden,
                (keys + keys + values) as usize,
                values as usize,
                config.linear_conv_kernel_dim->0,
                config.linear_value_head_dim->0,
                config.linear_num_value_heads->0,
            )
        }),
{
    qwen3_5_weights_are_named_after_their_roles(definition, hf_config, config, width, rotary, i);
    let plan = definition.hybrid_decoder->0;
    let sizes = hybrid_sizes(plan);
    let n = plan.weights.layers@.len();
    lemma_hybrid_layers(plan, sizes, n, i);
    lemma_hybrid_root(plan, sizes, n);
    let keys = config.linear_num_key_heads->0 * config.linear_key_head_dim->0;
    assert(keys * 2 == keys + keys);
}

} // verus!
