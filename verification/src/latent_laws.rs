//! What the registry promises of the models with latent attention and experts that it defines.
use vstd::prelude::*;

use crate::checkpoint::TensorRequirement;
use crate::debug_text::optional;
use crate::decoder_plans::{
    shaped, with_optional, DecoderNormalization, DenseFeedForwardWeightNames,
    HybridDecoderExecutionPlan, HybridDecoderLayerKind, HybridDecoderLayerWeightNames,
    HybridFeedForward, HybridFullAttentionConfig, HybridMultiLatentAttentionWeightNames,
    KeyGatedDeltaWeightNames, MoeFeedForwardConfig, MoeFeedForwardWeightNames,
    MultiLatentQueryConfig, MultiLatentQueryWeightNames, RouterActivation,
};
use crate::deepseek::{build_kimi_k25_definition, KimiK25Config, MlaMoeConfig};
use crate::dense_laws::{among, is_named};
use crate::hybrid_laws::{
    defined_by, extends, holds_feed_forward, holds_root, lemma_at, lemma_extends,
    lemma_feed_forward, lemma_root, named_experts, named_feed_forward, named_latent, named_norms,
};
use crate::kv_cache::{KvCacheModelLayout, KvCacheTensorGeometry};
use crate::mla_plans::{
    mla_tensors, with_experts, with_kda, with_layer_feed_forward, with_mla, with_mla_layer,
    FeedForwardLayout, KdaSizes, MlaSizes,
};
use crate::model_config::HfModelConfig;
use crate::model_definition::ModelDefinition;
use crate::model_registry::AdapterConfig;
use crate::models::{
    AttentionArchitecture, DenseDecoderActivation, FeedForwardArchitecture, ModelAdapterError,
    ModelCacheArchitecture, ModelExecutionArchitecture,
};
use crate::text::decimal;

verus! {

/// Whether a layer has experts: none of the first layers, and then every so many.
pub open spec fn has_experts(i: int, first: Option<usize>, every: Option<usize>) -> bool {
    i >= (match first {
        Some(n) => n as int,
        None => 0int,
    }) && i % (every->0 as int) == 0
}

/// The feed-forward network of a layer is the dense one or the mixture of experts, as the layer has
/// it, and its weights are named after their roles.
pub open spec fn named_network(
    feed_forward: HybridFeedForward,
    at: Seq<char>,
    experts: bool,
    dense_size: usize,
    moe: MoeFeedForwardConfig,
    corrected: bool,
) -> bool {
    if experts {
        feed_forward matches HybridFeedForward::MixtureOfExperts { config, weights } && config
            == moe && named_experts(
            weights,
            at,
            moe.routed_expert_count as int,
            moe.shared_expert_count > 0,
            corrected,
        )
    } else {
        feed_forward matches HybridFeedForward::Dense { intermediate_size, weights }
            && intermediate_size == dense_size && named_feed_forward(weights, at + ".mlp"@)
    }
}

/// The mixture of experts that a configuration asks for.
pub open spec fn asks_for(moe: MoeFeedForwardConfig, config: MlaMoeConfig) -> bool {
    &&& Some(moe.routed_expert_count) == config.n_routed_experts
    &&& Some(moe.experts_per_token) == config.num_experts_per_tok
    &&& Some(moe.expert_group_count) == config.n_group
    &&& Some(moe.selected_expert_group_count) == config.topk_group
    &&& moe.shared_expert_count == (match config.n_shared_experts {
        Some(n) => n,
        None => 0usize,
    })
    &&& Some(moe.expert_intermediate_size) == config.moe_intermediate_size
    &&& Some(moe.renormalize) == config.norm_topk_prob
    &&& moe.router_activation == RouterActivation::Sigmoid <==> optional(config.scoring_func)
        == Some("sigmoid"@)
    &&& moe.router_activation == RouterActivation::Softmax <==> optional(config.scoring_func)
        == Some("softmax"@)
    &&& moe.routed_scaling_factor == config.routed_scaling_factor->0.narrow
}

/// The names of the weights of a decoder with latent attention and experts.
pub open spec fn named_latent_decoder(
    definition: ModelDefinition,
    config: MlaMoeConfig,
    root: Seq<char>,
    head: Seq<char>,
    i: int,
) -> bool {
    let weights = definition.hybrid_decoder->0.weights;
    let layer = weights.layers@[i];
    let at = root + ".layers."@ + decimal(i as nat);
    &&& definition.hybrid_decoder is Some
    &&& weights.token_embeddings@ == root + ".embed_tokens.weight"@
    &&& weights.final_norm@ == root + ".norm.weight"@
    &&& is_named(weights.lm_head, config.tie_word_embeddings != Some(true), head)
    &&& weights.layers@.len() == config.num_hidden_layers->0
    &&& 0 <= i < weights.layers@.len() ==> {
        &&& named_norms(layer, at)
        &&& layer.mixer matches HybridDecoderLayerKind::MultiLatentAttention {
            cache_layer_index,
            weights: mixer,
        } && cache_layer_index == i && named_latent(mixer, at, config.q_lora_rank)
        &&& exists|moe: MoeFeedForwardConfig| #[trigger]
            asks_for(moe, config) && named_network(
                layer.feed_forward,
                at,
                has_experts(i, config.first_k_dense_replace, config.moe_layer_freq),
                config.intermediate_size->0,
                moe,
                optional(config.topk_method) == Some("noaux_tc"@),
            )
    }
}

proof fn lemma_latent_decoder(
    definition: ModelDefinition,
    spec: crate::deepseek::DeepSeekV3DefinitionSpec,
    hf_config: HfModelConfig,
    config: MlaMoeConfig,
    i: int,
)
    requires
        crate::deepseek::v3_fault(spec.architecture@, config) is None,
        crate::deepseek::v3_definition_of(definition, spec, hf_config, config),
    ensures
        named_latent_decoder(definition, config, spec.model_prefix@, spec.lm_head@, i),
        0 <= i < config.num_hidden_layers->0 ==> asks_for(
            crate::deepseek::feed_forward_layout(config).moe_config,
            config,
        ),
{
    let layout = crate::deepseek::feed_forward_layout(config);
    reveal_strlit("sigmoid");
    reveal_strlit("softmax");
    assert("sigmoid"@[1] == 'i' && "softmax"@[1] == 'o');
    assert(asks_for(layout.moe_config, config));
    let weights = definition.hybrid_decoder->0.weights;
    assert(crate::decoder_plans::named(weights.lm_head) is Some <==> weights.lm_head is Some);
    if 0 <= i < weights.layers@.len() {
        let layer = weights.layers@[i];
        assert(crate::deepseek::names_mla_layer(
            layer,
            spec.model_prefix@,
            i as nat,
            crate::deepseek::query_of(config.q_lora_rank),
            layout,
        ));
        lemma_network(
            layer.feed_forward,
            spec.model_prefix@ + ".layers."@ + decimal(i as nat),
            i as nat,
            layout,
        );
    }
}

/// A feed-forward network is named after the roles of its weights.
pub proof fn lemma_network(
    feed_forward: HybridFeedForward,
    at: Seq<char>,
    i: nat,
    layout: FeedForwardLayout,
)
    requires
        crate::mla_plans::names_layer_feed_forward(feed_forward, at, i, layout),
    ensures
        named_network(
            feed_forward,
            at,
            layout.is_moe(i),
            layout.dense_intermediate_size,
            layout.moe_config,
            layout.has_correction_bias,
        ),
{
    if let HybridFeedForward::MixtureOfExperts { config, weights } = feed_forward {
        assert(crate::decoder_plans::named(weights.correction_bias) is Some
            <==> weights.correction_bias is Some);
        assert forall|e: int| 0 <= e < config.routed_expert_count implies {
            let expert = at + ".mlp.experts."@ + decimal(e as nat);
            &&& (#[trigger] weights.experts@[e]).gate_weight@ == expert + ".w1.weight"@
            &&& weights.experts@[e].down_weight@ == expert + ".w2.weight"@
            &&& weights.experts@[e].up_weight@ == expert + ".w3.weight"@
        } by {
            assert(crate::mla_plans::names_expert(
                weights.experts@[e],
                crate::mla_plans::expert_prefix(at, e as nat),
            ));
        }
    }
}

/// In every layer the plan of a DeepSeek V3 model gives each role the checkpoint name of that role, and
/// the layers with experts are those that the configuration says.
pub proof fn deepseek_weights_are_named_after_their_roles(
    definition: ModelDefinition,
    hf_config: HfModelConfig,
    config: MlaMoeConfig,
    i: int,
)
    requires
        defined_by(definition, hf_config, AdapterConfig::MlaMoe(Ok(config))),
        definition.architecture@ == "DeepseekV3ForCausalLM"@,
    ensures
        named_latent_decoder(definition, config, "model"@, "lm_head.weight"@, i),
{
    lemma_is_v3(definition, hf_config, config);
    let spec = choose|spec: crate::deepseek::DeepSeekV3DefinitionSpec|
        crate::deepseek::names_v3(spec) && crate::deepseek::v3_definition_of(
            definition,
            spec,
            hf_config,
            config,
        );
    lemma_latent_decoder(definition, spec, hf_config, config, i);
}

proof fn lemma_is_v3(definition: ModelDefinition, hf_config: HfModelConfig, config: MlaMoeConfig)
    requires
        defined_by(definition, hf_config, AdapterConfig::MlaMoe(Ok(config))),
        definition.architecture@ == "DeepseekV3ForCausalLM"@,
    ensures
        crate::deepseek::v3_fault("DeepseekV3ForCausalLM"@, config) is None,
        exists|spec: crate::deepseek::DeepSeekV3DefinitionSpec|
            crate::deepseek::names_v3(spec) && crate::deepseek::v3_definition_of(
                definition,
                spec,
                hf_config,
                config,
            ),
{
    reveal_strlit("DeepseekV3ForCausalLM");
    reveal_strlit("DeepseekV4ForCausalLM");
    reveal_strlit("GlmMoeDsaForCausalLM");
    assert("DeepseekV3ForCausalLM"@[9] == '3');
    assert("DeepseekV4ForCausalLM"@[9] == '4');
    assert("GlmMoeDsaForCausalLM"@[0] == 'G' && "DeepseekV3ForCausalLM"@[0] == 'D');
}

/// In every layer the plan of a Kimi K2.5 model gives each role the checkpoint name of that role, below
/// the name of its language model.
pub proof fn kimi_k25_weights_are_named_after_their_roles(
    definition: ModelDefinition,
    hf_config: HfModelConfig,
    config: KimiK25Config,
    i: int,
)
    requires
        call_ensures(
            build_kimi_k25_definition,
            (&hf_config, Ok(config)),
            Ok::<ModelDefinition, ModelAdapterError>(definition),
        ),
    ensures
        definition.architecture@ == "KimiK25ForConditionalGeneration"@,
        named_latent_decoder(
            definition,
            config.text_config,
            "language_model.model"@,
            "language_model.lm_head.weight"@,
            i,
        ),
        latent_sizes(definition, hf_config, config.text_config),
        latent_shapes(definition, config.text_config, i),
{
    let spec = choose|spec: crate::deepseek::DeepSeekV3DefinitionSpec|
        crate::deepseek::names_k25(spec) && crate::deepseek::v3_definition_of(
            definition,
            spec,
            hf_config,
            config.text_config,
        );
    lemma_latent_decoder(definition, spec, hf_config, config.text_config, i);
    lemma_latent_sizes(definition, spec, hf_config, config.text_config);
    lemma_latent_shapes(definition, spec, hf_config, config.text_config, i);
}

/// What a token takes in a cache of latents: its compressed keys and values and its rotary part as the
/// key, and its compressed keys and values as the value, for one head.
pub open spec fn is_latent_cache(
    layout: KvCacheModelLayout,
    layers: int,
    rank: usize,
    rope: usize,
) -> bool {
    &&& layout.num_layers == layers
    &&& layout.kv_heads == 1
    &&& layout.head_dim == rank + rope
    &&& layout.kv_tensors_per_token == 2
    &&& layout.bytes_per_token_per_layer is None
    &&& layout.tensor_geometry matches KvCacheTensorGeometry::Pair { key_elements, value_elements }
        && key_elements == rank + rope && value_elements == rank
}

/// The sizes of a decoder with latent attention and experts are those of its configuration.
pub open spec fn latent_sizes(
    definition: ModelDefinition,
    hf_config: HfModelConfig,
    config: MlaMoeConfig,
) -> bool {
    let plan = definition.hybrid_decoder->0;
    &&& definition.hybrid_decoder is Some
    &&& definition.dense_decoder is None
    &&& definition.recurrent_state is None
    &&& definition.cache_architecture == ModelCacheArchitecture::PagedKv
    &&& definition.vocab_size == config.vocab_size
    &&& definition.max_context_length == config.max_position_embeddings
    &&& definition.eos_token_ids@ == hf_config@.eos_token_ids
    &&& definition.kv_cache_layout matches Some(layout) && is_latent_cache(
        layout,
        config.num_hidden_layers->0 as int,
        config.kv_lora_rank->0,
        config.qk_rope_head_dim->0,
    )
    &&& is_latent_execution(definition.execution, config)
    &&& Some(plan.vocab_size) == config.vocab_size
    &&& Some(plan.hidden_size) == config.hidden_size
    &&& Some(plan.max_position_embeddings) == config.max_position_embeddings
    &&& plan.rms_norm_eps == config.rms_norm_eps->0.narrow
    &&& plan.rope_theta == config.rope_theta->0.narrow
    &&& plan.normalization == DecoderNormalization::Rms
    &&& plan.activation == DenseDecoderActivation::Silu
    &&& plan.linear_attention is None
    &&& plan.full_attention matches HybridFullAttentionConfig::MultiLatent {
        num_attention_heads,
        query,
        kv_lora_rank,
        qk_nope_head_dim,
        qk_rope_head_dim,
        value_head_dim,
        skip_rope,
        rotary_embedding,
    } && Some(num_attention_heads) == config.num_attention_heads && Some(kv_lora_rank)
        == config.kv_lora_rank && Some(qk_nope_head_dim) == config.qk_nope_head_dim && Some(
        qk_rope_head_dim,
    ) == config.qk_rope_head_dim && Some(value_head_dim) == config.v_head_dim && !skip_rope
        && rotary_embedding is None && (query matches MultiLatentQueryConfig::LowRank { rank }
        ==> Some(rank) == config.q_lora_rank) && (query is Direct <==> config.q_lora_rank is None)
}

/// How a model with latent attention and experts is executed.
pub open spec fn is_latent_execution(
    execution: ModelExecutionArchitecture,
    config: MlaMoeConfig,
) -> bool {
    execution matches ModelExecutionArchitecture::Transformer {
        attention: AttentionArchitecture::MultiLatent {
            num_attention_heads,
            qk_nope_head_dim,
            qk_rope_head_dim,
            value_head_dim,
        },
        feed_forward: FeedForwardArchitecture::MixtureOfExperts {
            routed_expert_count,
            experts_per_token,
            shared_expert_count,
            expert_intermediate_size,
        },
    } && Some(num_attention_heads) == config.num_attention_heads && Some(qk_nope_head_dim)
        == config.qk_nope_head_dim && Some(qk_rope_head_dim) == config.qk_rope_head_dim && Some(
        value_head_dim,
    ) == config.v_head_dim && Some(routed_expert_count) == config.n_routed_experts && Some(
        experts_per_token,
    ) == config.num_experts_per_tok && shared_expert_count == (match config.n_shared_experts {
        Some(n) => n,
        None => 0usize,
    }) && Some(expert_intermediate_size) == config.moe_intermediate_size
}

proof fn lemma_latent_sizes(
    definition: ModelDefinition,
    spec: crate::deepseek::DeepSeekV3DefinitionSpec,
    hf_config: HfModelConfig,
    config: MlaMoeConfig,
)
    requires
        crate::deepseek::v3_fault(spec.architecture@, config) is None,
        crate::deepseek::v3_definition_of(definition, spec, hf_config, config),
    ensures
        latent_sizes(definition, hf_config, config),
{
}

/// A DeepSeek V3 model has the sizes of its configuration, and its cache holds latents.
pub proof fn deepseek_models_have_the_sizes_of_their_configuration(
    definition: ModelDefinition,
    hf_config: HfModelConfig,
    config: MlaMoeConfig,
)
    requires
        defined_by(definition, hf_config, AdapterConfig::MlaMoe(Ok(config))),
        definition.architecture@ == "DeepseekV3ForCausalLM"@,
    ensures
        latent_sizes(definition, hf_config, config),
{
    lemma_is_v3(definition, hf_config, config);
    let spec = choose|spec: crate::deepseek::DeepSeekV3DefinitionSpec|
        crate::deepseek::names_v3(spec) && crate::deepseek::v3_definition_of(
            definition,
            spec,
            hf_config,
            config,
        );
    lemma_latent_sizes(definition, spec, hf_config, config);
}

/// The weights of latent attention have their shapes.
pub open spec fn holds_latent(
    tensors: Seq<TensorRequirement>,
    w: HybridMultiLatentAttentionWeightNames,
    hidden: usize,
    rank: Option<usize>,
    heads: int,
    nope: int,
    rope: int,
    value: int,
    kv_rank: usize,
) -> bool {
    let query = (heads * (nope + rope)) as usize;
    &&& w.query matches MultiLatentQueryWeightNames::Direct { weight } ==> among(
        tensors,
        weight@,
        seq![query, hidden],
    )
    &&& w.query matches MultiLatentQueryWeightNames::LowRank { a_weight, a_norm, b_weight }
        ==> among(tensors, a_weight@, seq![rank->0, hidden]) && among(
        tensors,
        a_norm@,
        seq![rank->0],
    ) && among(tensors, b_weight@, seq![query, rank->0])
    &&& among(tensors, w.kv_a_weight@, seq![(kv_rank + rope) as usize, hidden])
    &&& among(tensors, w.kv_a_norm@, seq![kv_rank])
    &&& among(tensors, w.kv_b_weight@, seq![(heads * (nope + value)) as usize, kv_rank])
    &&& among(tensors, w.output_weight@, seq![hidden, (heads * value) as usize])
}

/// The weights of key-gated delta attention have their shapes.
pub open spec fn holds_key_gated(
    tensors: Seq<TensorRequirement>,
    w: KeyGatedDeltaWeightNames,
    hidden: usize,
    heads: usize,
    head: usize,
    kernel: usize,
) -> bool {
    let all = (heads * head) as usize;
    &&& among(tensors, w.a_log@, seq![1usize, 1usize, heads, 1usize])
    &&& among(tensors, w.dt_bias@, seq![all])
    &&& among(tensors, w.query_weight@, seq![all, hidden])
    &&& among(tensors, w.key_weight@, seq![all, hidden])
    &&& among(tensors, w.value_weight@, seq![all, hidden])
    &&& among(tensors, w.beta_weight@, seq![heads, hidden])
    &&& among(tensors, w.forget_a_weight@, seq![head, hidden])
    &&& among(tensors, w.forget_b_weight@, seq![all, head])
    &&& among(tensors, w.gate_a_weight@, seq![head, hidden])
    &&& among(tensors, w.gate_b_weight@, seq![all, head])
    &&& among(tensors, w.query_conv_weight@, seq![all, kernel])
    &&& among(tensors, w.key_conv_weight@, seq![all, kernel])
    &&& among(tensors, w.value_conv_weight@, seq![all, kernel])
    &&& among(tensors, w.output_norm@, seq![head])
    &&& among(tensors, w.output_weight@, seq![hidden, all])
}

/// The weights of a mixture of experts have their shapes.
pub open spec fn holds_experts(
    tensors: Seq<TensorRequirement>,
    w: MoeFeedForwardWeightNames,
    config: MoeFeedForwardConfig,
    hidden: usize,
) -> bool {
    &&& among(tensors, w.gate_weight@, seq![config.routed_expert_count, hidden])
    &&& w.correction_bias matches Some(name) ==> among(
        tensors,
        name@,
        seq![config.routed_expert_count],
    )
    &&& forall|e: int|
        0 <= e < w.experts@.len() ==> holds_feed_forward(
            tensors,
            #[trigger] w.experts@[e],
            hidden,
            config.expert_intermediate_size,
        )
    &&& w.shared_expert matches Some(shared) ==> holds_feed_forward(
        tensors,
        shared,
        hidden,
        (config.expert_intermediate_size * config.shared_expert_count) as usize,
    )
}

/// The feed-forward network of a layer has its shapes.
pub open spec fn holds_network(
    tensors: Seq<TensorRequirement>,
    feed_forward: HybridFeedForward,
    hidden: usize,
) -> bool {
    match feed_forward {
        HybridFeedForward::Dense { intermediate_size, weights } => holds_feed_forward(
            tensors,
            weights,
            hidden,
            intermediate_size,
        ),
        HybridFeedForward::MixtureOfExperts { config, weights } => holds_experts(
            tensors,
            weights,
            config,
            hidden,
        ),
    }
}

proof fn lemma_more_held(a: Seq<TensorRequirement>, b: Seq<TensorRequirement>)
    requires
        extends(a, b),
    ensures
        forall|w: DenseFeedForwardWeightNames, h: usize, m: usize| #[trigger]
            holds_feed_forward(a, w, h, m) ==> holds_feed_forward(b, w, h, m),
        forall|f: HybridFeedForward, h: usize| #[trigger]
            holds_network(a, f, h) ==> holds_network(b, f, h),
{
    lemma_extends(a, b);
    assert forall|w: DenseFeedForwardWeightNames, h: usize, m: usize| #[trigger]
        holds_feed_forward(a, w, h, m) implies holds_feed_forward(b, w, h, m) by {
        assert(among(a, w.gate_weight@, seq![m, h]));
        assert(among(a, w.up_weight@, seq![m, h]));
        assert(among(a, w.down_weight@, seq![h, m]));
    }
    assert forall|f: HybridFeedForward, h: usize| #[trigger] holds_network(a, f, h) implies
        holds_network(b, f, h) by {
        if let HybridFeedForward::MixtureOfExperts { config, weights } = f {
            assert(among(a, weights.gate_weight@, seq![config.routed_expert_count, h]));
            if weights.correction_bias is Some {
                assert(among(
                    a,
                    weights.correction_bias->0@,
                    seq![config.routed_expert_count],
                ));
            }
            assert forall|e: int| 0 <= e < weights.experts@.len() implies holds_feed_forward(
                b,
                #[trigger] weights.experts@[e],
                h,
                config.expert_intermediate_size,
            ) by {
                assert(holds_feed_forward(
                    a,
                    weights.experts@[e],
                    h,
                    config.expert_intermediate_size,
                ));
            }
        }
    }
}

proof fn lemma_experts(
    tensors: Seq<TensorRequirement>,
    experts: Seq<DenseFeedForwardWeightNames>,
    h: usize,
    m: usize,
    n: nat,
)
    requires
        n <= experts.len(),
    ensures
        extends(tensors, with_experts(tensors, experts, h, m, n)),
        forall|e: int|
            0 <= e < n ==> holds_feed_forward(
                with_experts(tensors, experts, h, m, n),
                #[trigger] experts[e],
                h,
                m,
            ),
    decreases n,
{
    if n > 0 {
        let before = with_experts(tensors, experts, h, m, (n - 1) as nat);
        let all = with_experts(tensors, experts, h, m, n);
        lemma_experts(tensors, experts, h, m, (n - 1) as nat);
        lemma_feed_forward(before, experts[n - 1], h, m);
        lemma_more_held(before, all);
        assert forall|e: int| 0 <= e < n implies holds_feed_forward(
            all,
            #[trigger] experts[e],
            h,
            m,
        ) by {
            if e < n - 1 {
                assert(holds_feed_forward(before, experts[e], h, m));
            }
        }
    }
}

#[verifier::rlimit(40)]
proof fn lemma_network_shapes(
    tensors: Seq<TensorRequirement>,
    feed_forward: HybridFeedForward,
    h: usize,
)
    ensures
        extends(tensors, with_layer_feed_forward(tensors, feed_forward, h)),
        holds_network(with_layer_feed_forward(tensors, feed_forward, h), feed_forward, h),
{
    match feed_forward {
        HybridFeedForward::Dense { intermediate_size, weights } => {
            lemma_feed_forward(tensors, weights, h, intermediate_size);
        },
        HybridFeedForward::MixtureOfExperts { config, weights } => {
            let count = config.routed_expert_count;
            let gated = tensors.push(shaped(weights.gate_weight@, seq![count, h]));
            let biased = with_optional(gated, weights.correction_bias, seq![count]);
            lemma_at(gated, tensors.len() as int, weights.gate_weight@, seq![count, h]);
            assert(extends(gated, biased));
            lemma_extends(gated, biased);
            if weights.correction_bias is Some {
                lemma_at(
                    biased,
                    gated.len() as int,
                    weights.correction_bias->0@,
                    seq![count],
                );
            }
            let m = config.expert_intermediate_size;
            let routed = with_experts(biased, weights.experts@, h, m, weights.experts@.len());
            lemma_experts(biased, weights.experts@, h, m, weights.experts@.len());
            lemma_extends(biased, routed);
            let all = with_layer_feed_forward(tensors, feed_forward, h);
            if weights.shared_expert is Some {
                lemma_feed_forward(
                    routed,
                    weights.shared_expert->0,
                    h,
                    (m * config.shared_expert_count) as usize,
                );
            }
            assert(extends(routed, all));
            lemma_more_held(routed, all);
            lemma_extends(routed, all);
            assert forall|e: int| 0 <= e < weights.experts@.len() implies holds_feed_forward(
                all,
                #[trigger] weights.experts@[e],
                h,
                m,
            ) by {
                assert(holds_feed_forward(routed, weights.experts@[e], h, m));
            }
        },
    }
}

/// The tensors of a layer have their shapes.
pub open spec fn holds_latent_layer(
    tensors: Seq<TensorRequirement>,
    layer: HybridDecoderLayerWeightNames,
    hidden: usize,
    mla: MlaSizes,
    kda: Option<KdaSizes>,
) -> bool {
    &&& among(tensors, layer.input_norm@, seq![hidden])
    &&& among(tensors, layer.post_attention_norm@, seq![hidden])
    &&& holds_network(tensors, layer.feed_forward, hidden)
    &&& match layer.mixer {
        HybridDecoderLayerKind::MultiLatentAttention { cache_layer_index, weights } => {
            &&& match (mla.query, weights.query) {
                (MultiLatentQueryConfig::Direct, MultiLatentQueryWeightNames::Direct { weight }) =>
                    among(tensors, weight@, seq![mla.query_size, hidden]),
                (
                    MultiLatentQueryConfig::LowRank { rank },
                    MultiLatentQueryWeightNames::LowRank { a_weight, a_norm, b_weight },
                ) => among(tensors, a_weight@, seq![rank, hidden]) && among(
                    tensors,
                    a_norm@,
                    seq![rank],
                ) && among(tensors, b_weight@, seq![mla.query_size, rank]),
                _ => true,
            }
            &&& among(tensors, weights.kv_a_weight@, seq![mla.compressed_kv_size, hidden])
            &&& among(tensors, weights.kv_a_norm@, seq![mla.kv_lora_rank])
            &&& among(tensors, weights.kv_b_weight@, seq![mla.expanded_kv_size, mla.kv_lora_rank])
            &&& among(tensors, weights.output_weight@, seq![hidden, mla.attention_output_size])
        },
        HybridDecoderLayerKind::KeyGatedDelta { state_layer_index, weights } => {
            let s = kda->0;
            &&& among(tensors, weights.a_log@, seq![1usize, 1usize, s.num_heads, 1usize])
            &&& among(tensors, weights.dt_bias@, seq![s.key_size])
            &&& among(tensors, weights.query_weight@, seq![s.key_size, hidden])
            &&& among(tensors, weights.key_weight@, seq![s.key_size, hidden])
            &&& among(tensors, weights.value_weight@, seq![s.value_size, hidden])
            &&& among(tensors, weights.beta_weight@, seq![s.num_heads, hidden])
            &&& among(tensors, weights.forget_a_weight@, seq![s.key_head_dim, hidden])
            &&& among(tensors, weights.forget_b_weight@, seq![s.key_size, s.key_head_dim])
            &&& among(tensors, weights.gate_a_weight@, seq![s.key_head_dim, hidden])
            &&& among(tensors, weights.gate_b_weight@, seq![s.value_size, s.key_head_dim])
            &&& among(tensors, weights.query_conv_weight@, seq![s.key_size, s.conv_kernel_dim])
            &&& among(tensors, weights.key_conv_weight@, seq![s.key_size, s.conv_kernel_dim])
            &&& among(tensors, weights.value_conv_weight@, seq![s.value_size, s.conv_kernel_dim])
            &&& among(tensors, weights.output_norm@, seq![s.value_head_dim])
            &&& among(tensors, weights.output_weight@, seq![hidden, s.value_size])
        },
        _ => true,
    }
}

#[verifier::rlimit(60)]
proof fn lemma_kda(
    tensors: Seq<TensorRequirement>,
    w: KeyGatedDeltaWeightNames,
    h: usize,
    s: KdaSizes,
)
    ensures
        extends(tensors, with_kda(tensors, w, h, s)),
        ({
            let all = with_kda(tensors, w, h, s);
            &&& among(all, w.a_log@, seq![1usize, 1usize, s.num_heads, 1usize])
            &&& among(all, w.dt_bias@, seq![s.key_size])
            &&& among(all, w.query_weight@, seq![s.key_size, h])
            &&& among(all, w.key_weight@, seq![s.key_size, h])
            &&& among(all, w.value_weight@, seq![s.value_size, h])
            &&& among(all, w.beta_weight@, seq![s.num_heads, h])
            &&& among(all, w.forget_a_weight@, seq![s.key_head_dim, h])
            &&& among(all, w.forget_b_weight@, seq![s.key_size, s.key_head_dim])
            &&& among(all, w.gate_a_weight@, seq![s.key_head_dim, h])
            &&& among(all, w.gate_b_weight@, seq![s.value_size, s.key_head_dim])
            &&& among(all, w.query_conv_weight@, seq![s.key_size, s.conv_kernel_dim])
            &&& among(all, w.key_conv_weight@, seq![s.key_size, s.conv_kernel_dim])
            &&& among(all, w.value_conv_weight@, seq![s.value_size, s.conv_kernel_dim])
            &&& among(all, w.output_norm@, seq![s.value_head_dim])
            &&& among(all, w.output_weight@, seq![h, s.value_size])
        }),
{
    let all = with_kda(tensors, w, h, s);
    let n = tensors.len() as int;
    lemma_at(all, n, w.a_log@, seq![1usize, 1usize, s.num_heads, 1usize]);
    lemma_at(all, n + 1, w.dt_bias@, seq![s.key_size]);
    lemma_at(all, n + 2, w.query_weight@, seq![s.key_size, h]);
    lemma_at(all, n + 3, w.key_weight@, seq![s.key_size, h]);
    lemma_at(all, n + 4, w.value_weight@, seq![s.value_size, h]);
    lemma_at(all, n + 5, w.beta_weight@, seq![s.num_heads, h]);
    lemma_at(all, n + 6, w.forget_a_weight@, seq![s.key_head_dim, h]);
    lemma_at(all, n + 7, w.forget_b_weight@, seq![s.key_size, s.key_head_dim]);
    lemma_at(all, n + 8, w.gate_a_weight@, seq![s.key_head_dim, h]);
    lemma_at(all, n + 9, w.gate_b_weight@, seq![s.value_size, s.key_head_dim]);
    lemma_at(all, n + 10, w.query_conv_weight@, seq![s.key_size, s.conv_kernel_dim]);
    lemma_at(all, n + 11, w.key_conv_weight@, seq![s.key_size, s.conv_kernel_dim]);
    lemma_at(all, n + 12, w.value_conv_weight@, seq![s.value_size, s.conv_kernel_dim]);
    lemma_at(all, n + 13, w.output_norm@, seq![s.value_head_dim]);
    lemma_at(all, n + 14, w.output_weight@, seq![h, s.value_size]);
}

#[verifier::rlimit(60)]
proof fn lemma_latent_layer(
    tensors: Seq<TensorRequirement>,
    layer: HybridDecoderLayerWeightNames,
    h: usize,
    mla: MlaSizes,
    kda: Option<KdaSizes>,
)
    ensures
        extends(tensors, with_mla_layer(tensors, layer, h, mla, kda)),
        holds_latent_layer(with_mla_layer(tensors, layer, h, mla, kda), layer, h, mla, kda),
{
    let all = with_mla_layer(tensors, layer, h, mla, kda);
    let norms = tensors.push(shaped(layer.input_norm@, seq![h])).push(
        shaped(layer.post_attention_norm@, seq![h]),
    );
    lemma_at(norms, tensors.len() as int, layer.input_norm@, seq![h]);
    lemma_at(norms, tensors.len() as int + 1, layer.post_attention_norm@, seq![h]);
    let mixed = match layer.mixer {
        HybridDecoderLayerKind::MultiLatentAttention { cache_layer_index, weights } => with_mla(
            norms,
            weights,
            h,
            mla,
        ),
        HybridDecoderLayerKind::KeyGatedDelta { state_layer_index, weights } => with_kda(
            norms,
            weights,
            h,
            kda->0,
        ),
        _ => norms,
    };
    match layer.mixer {
        HybridDecoderLayerKind::MultiLatentAttention { cache_layer_index, weights } => {
            let n = norms.len() as int;
            let m = mixed.len() as int - 4;
            match (mla.query, weights.query) {
                (MultiLatentQueryConfig::Direct, MultiLatentQueryWeightNames::Direct { weight }) => {
                    lemma_at(mixed, n, weight@, seq![mla.query_size, h]);
                },
                (
                    MultiLatentQueryConfig::LowRank { rank },
                    MultiLatentQueryWeightNames::LowRank { a_weight, a_norm, b_weight },
                ) => {
                    lemma_at(mixed, n, a_weight@, seq![rank, h]);
                    lemma_at(mixed, n + 1, a_norm@, seq![rank]);
                    lemma_at(mixed, n + 2, b_weight@, seq![mla.query_size, rank]);
                },
                _ => {},
            }
            lemma_at(mixed, m, weights.kv_a_weight@, seq![mla.compressed_kv_size, h]);
            lemma_at(mixed, m + 1, weights.kv_a_norm@, seq![mla.kv_lora_rank]);
            lemma_at(
                mixed,
                m + 2,
                weights.kv_b_weight@,
                seq![mla.expanded_kv_size, mla.kv_lora_rank],
            );
            lemma_at(mixed, m + 3, weights.output_weight@, seq![h, mla.attention_output_size]);
        },
        HybridDecoderLayerKind::KeyGatedDelta { state_layer_index, weights } => {
            lemma_kda(norms, weights, h, kda->0);
        },
        _ => {},
    }
    assert(extends(norms, mixed));
    lemma_extends(norms, mixed);
    lemma_network_shapes(mixed, layer.feed_forward, h);
    lemma_extends(mixed, all);
}

proof fn lemma_held_layer(
    a: Seq<TensorRequirement>,
    b: Seq<TensorRequirement>,
    layer: HybridDecoderLayerWeightNames,
    h: usize,
    mla: MlaSizes,
    kda: Option<KdaSizes>,
)
    requires
        extends(a, b),
        holds_latent_layer(a, layer, h, mla, kda),
    ensures
        holds_latent_layer(b, layer, h, mla, kda),
{
    lemma_extends(a, b);
    lemma_more_held(a, b);
    assert(holds_network(a, layer.feed_forward, h));
}

/// Every layer of a plan is required with its shapes.
pub proof fn lemma_latent_layers(
    plan: HybridDecoderExecutionPlan,
    mla: MlaSizes,
    kda: Option<KdaSizes>,
    n: nat,
    i: int,
)
    requires
        n <= plan.weights.layers@.len(),
    ensures
        0 <= i < n ==> holds_latent_layer(
            mla_tensors(plan, mla, kda, n),
            plan.weights.layers@[i],
            plan.hidden_size,
            mla,
            kda,
        ),
        holds_root(mla_tensors(plan, mla, kda, n), plan),
    decreases n,
{
    if n == 0 {
        lemma_root(plan);
    } else {
        let before = mla_tensors(plan, mla, kda, (n - 1) as nat);
        let all = mla_tensors(plan, mla, kda, n);
        lemma_latent_layer(before, plan.weights.layers@[n - 1], plan.hidden_size, mla, kda);
        lemma_latent_layers(plan, mla, kda, (n - 1) as nat, i);
        lemma_extends(before, all);
        if 0 <= i < n - 1 {
            lemma_held_layer(
                before,
                all,
                plan.weights.layers@[i],
                plan.hidden_size,
                mla,
                kda,
            );
        }
    }
}

/// The weights of a decoder with latent attention and experts have the shapes of the configuration.
pub open spec fn latent_shapes(definition: ModelDefinition, config: MlaMoeConfig, i: int) -> bool {
    let tensors = definition.checkpoint_topology@.tensors;
    let plan = definition.hybrid_decoder->0;
    let layer = plan.weights.layers@[i];
    &&& holds_root(tensors, plan)
    &&& 0 <= i < config.num_hidden_layers->0 ==> {
        &&& among(tensors, layer.input_norm@, seq![config.hidden_size->0])
        &&& among(tensors, layer.post_attention_norm@, seq![config.hidden_size->0])
        &&& holds_network(tensors, layer.feed_forward, config.hidden_size->0)
        &&& holds_latent(
            tensors,
            layer.mixer->MultiLatentAttention_weights,
            config.hidden_size->0,
            config.q_lora_rank,
            config.num_attention_heads->0 as int,
            config.qk_nope_head_dim->0 as int,
            config.qk_rope_head_dim->0 as int,
            config.v_head_dim->0 as int,
            config.kv_lora_rank->0,
        )
    }
}

proof fn lemma_latent_shapes(
    definition: ModelDefinition,
    spec: crate::deepseek::DeepSeekV3DefinitionSpec,
    hf_config: HfModelConfig,
    config: MlaMoeConfig,
    i: int,
)
    requires
        crate::deepseek::v3_fault(spec.architecture@, config) is None,
        crate::deepseek::v3_definition_of(definition, spec, hf_config, config),
    ensures
        latent_shapes(definition, config, i),
{
    let plan = definition.hybrid_decoder->0;
    let n = plan.weights.layers@.len();
    let mla = crate::deepseek::mla_sizes(config);
    lemma_latent_layers(plan, mla, None, n, i);
    if 0 <= i < n {
        assert(crate::deepseek::names_mla_layer(
            plan.weights.layers@[i],
            spec.model_prefix@,
            i as nat,
            crate::deepseek::query_of(config.q_lora_rank),
            crate::deepseek::feed_forward_layout(config),
        ));
    }
}

/// The checkpoint of a DeepSeek V3 model must hold every weight that the plan names, with the shape that
/// the configuration gives to its role.
pub proof fn deepseek_checkpoints_hold_the_planned_weights(
    definition: ModelDefinition,
    hf_config: HfModelConfig,
    config: MlaMoeConfig,
    i: int,
)
    requires
        defined_by(definition, hf_config, AdapterConfig::MlaMoe(Ok(config))),
        definition.architecture@ == "DeepseekV3ForCausalLM"@,
    ensures
        latent_shapes(definition, config, i),
{
    lemma_is_v3(definition, hf_config, config);
    let spec = choose|spec: crate::deepseek::DeepSeekV3DefinitionSpec|
        crate::deepseek::names_v3(spec) && crate::deepseek::v3_definition_of(
            definition,
            spec,
            hf_config,
            config,
        );
    lemma_latent_shapes(definition, spec, hf_config, config, i);
}

} // verus!
