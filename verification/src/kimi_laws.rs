//! What the registry promises of the Kimi Linear models that it defines, and of the checkpoints of the
//! models with shared latent attention.
use vstd::prelude::*;

use crate::checkpoint::{places, TensorRequirement};
use crate::debug_text::optional;
use crate::decoder_plans::{
    DecoderNormalization, HybridDecoderLayerKind, HybridDecoderLayerWeightNames,
    HybridFeedForward, HybridFullAttentionConfig, HybridLinearAttentionConfig,
    MoeFeedForwardConfig, MultiLatentQueryConfig, RotaryEmbeddingStyle, RouterActivation,
};
use crate::deepseek::MlaMoeConfig;
use crate::dense_laws::{among, is_named, must_hold};
use crate::hybrid_laws::{
    defined_by, holds_root, keeping, lemma_keeping, named_key_gated, named_latent, named_norms,
};
use crate::kimi_linear::KimiLinearConfig;
use crate::kv_cache::KvCacheTensorGeometry;
use crate::latent_laws::{
    has_experts, holds_key_gated, holds_latent, holds_network, is_latent_cache,
    is_latent_execution, lemma_latent_layers, lemma_network, named_network,
};
use crate::mla_plans::expert_coordinates;
use crate::model_config::HfModelConfig;
use crate::model_definition::ModelDefinition;
use crate::model_registry::AdapterConfig;
use crate::models::{
    AttentionArchitecture, DenseDecoderActivation, FeedForwardArchitecture,
    ModelCacheArchitecture, ModelExecutionArchitecture,
};
use crate::ordered_map::ExpertPlace;
use crate::text::decimal;

verus! {

/// The mixture of experts that a configuration of Kimi Linear asks for.
pub open spec fn kimi_asks_for(moe: MoeFeedForwardConfig, config: KimiLinearConfig) -> bool {
    &&& Some(moe.routed_expert_count) == config.num_experts
    &&& Some(moe.experts_per_token) == config.num_experts_per_token
    &&& Some(moe.expert_group_count) == config.num_expert_group
    &&& Some(moe.selected_expert_group_count) == config.topk_group
    &&& moe.shared_expert_count == (match config.num_shared_experts {
        Some(n) => n,
        None => 0usize,
    })
    &&& Some(moe.expert_intermediate_size) == config.moe_intermediate_size
    &&& moe.renormalize <==> config.moe_renormalize != Some(false)
    &&& moe.router_activation == RouterActivation::Sigmoid <==> optional(
        config.moe_router_activation_func,
    ) == Some("sigmoid"@)
    &&& moe.router_activation == RouterActivation::Softmax <==> optional(
        config.moe_router_activation_func,
    ) == Some("softmax"@)
    &&& moe.routed_scaling_factor == config.routed_scaling_factor->0.narrow
}

/// The layers without key-gated delta attention are those that keep keys.
proof fn lemma_full_layers(
    layers: Seq<HybridDecoderLayerWeightNames>,
    kda: Seq<usize>,
    query: MultiLatentQueryConfig,
    layout: crate::mla_plans::FeedForwardLayout,
    n: int,
)
    requires
        0 <= n <= layers.len() <= usize::MAX,
        forall|i: int|
            0 <= i < layers.len() ==> crate::kimi_linear::names_kimi_layer(
                #[trigger] layers[i],
                i as nat,
                kda,
                query,
                layout,
            ),
    ensures
        crate::kimi_linear::full_layers_before(kda, n as nat) == keeping(layers, n),
    decreases n,
{
    if n > 0 {
        lemma_full_layers(layers, kda, query, layout, n - 1);
        assert(crate::kimi_linear::names_kimi_layer(
            layers[n - 1],
            (n - 1) as nat,
            kda,
            query,
            layout,
        ));
    }
}

/// In every layer the plan of a Kimi Linear model gives each role the checkpoint name of that role. A
/// layer has key-gated delta attention exactly where the configuration lists it, counting from one, and
/// the layers of each kind are numbered in order.
pub proof fn kimi_weights_are_named_after_their_roles(
    definition: ModelDefinition,
    hf_config: HfModelConfig,
    config: KimiLinearConfig,
    rotary: Result<(), String>,
    i: int,
)
    requires
        defined_by(
            definition,
            hf_config,
            AdapterConfig::KimiLinear { config: Ok(config), rotary },
        ),
        0 <= i < config.num_hidden_layers->0,
    ensures
        definition.hybrid_decoder is Some,
        ({
            let weights = definition.hybrid_decoder->0.weights;
            let layer = weights.layers@[i];
            let at = "model.layers."@ + decimal(i as nat);
            let kda = config.linear_attn_config->0.kda_layers->0@;
            &&& weights.token_embeddings@ == "model.embed_tokens.weight"@
            &&& weights.final_norm@ == "model.norm.weight"@
            &&& is_named(
                weights.lm_head,
                config.tie_word_embeddings != Some(true),
                "lm_head.weight"@,
            )
            &&& weights.layers@.len() == config.num_hidden_layers->0
            &&& named_norms(layer, at)
            &&& if exists|k: int| 0 <= k < kda.len() && #[trigger] kda[k] == i + 1 {
                layer.mixer matches HybridDecoderLayerKind::KeyGatedDelta {
                    state_layer_index,
                    weights: mixer,
                } && state_layer_index == i - keeping(weights.layers@, i) && named_key_gated(
                    mixer,
                    at,
                )
            } else {
                layer.mixer matches HybridDecoderLayerKind::MultiLatentAttention {
                    cache_layer_index,
                    weights: mixer,
                } && cache_layer_index == keeping(weights.layers@, i) && named_latent(
                    mixer,
                    at,
                    config.q_lora_rank,
                )
            }
            &&& exists|moe: MoeFeedForwardConfig| #[trigger]
                kimi_asks_for(moe, config) && named_network(
                    layer.feed_forward,
                    at,
                    has_experts(i, config.first_k_dense_replace, config.moe_layer_freq),
                    config.intermediate_size->0,
                    moe,
                    true,
                )
        }),
{
    reveal_strlit("model");
    reveal_strlit(".layers.");
    reveal_strlit("model.layers.");
    assert("model"@ + ".layers."@ =~= "model.layers."@);
    reveal_strlit("sigmoid");
    reveal_strlit("softmax");
    assert("sigmoid"@[1] == 'i' && "softmax"@[1] == 'o');
    let weights = definition.hybrid_decoder->0.weights;
    let layout = crate::kimi_linear::feed_forward_layout(config);
    let kda = config.linear_attn_config->0.kda_layers->0@;
    let query = crate::deepseek::query_of(config.q_lora_rank);
    let layer = weights.layers@[i];
    assert(crate::kimi_linear::names_kimi_layer(layer, i as nat, kda, query, layout));
    assert(weights.layers@.len() == weights.layers.len());
    lemma_full_layers(weights.layers@, kda, query, layout, i);
    lemma_keeping(weights.layers@, i);
    lemma_network(layer.feed_forward, "model.layers."@ + decimal(i as nat), i as nat, layout);
    assert(kimi_asks_for(layout.moe_config, config));
    assert(crate::decoder_plans::named(weights.lm_head) is Some <==> weights.lm_head is Some);
    let place = (i + 1) as usize;
    if kda.contains(place) {
        let k = choose|k: int| 0 <= k < kda.len() && kda[k] == place;
        assert(kda[k] == i + 1);
    }
}

/// A Kimi Linear model has the sizes of its configuration. Its layers with latent attention keep
/// latents, and the others keep a state.
pub proof fn kimi_models_have_the_sizes_of_their_configuration(
    definition: ModelDefinition,
    hf_config: HfModelConfig,
    config: KimiLinearConfig,
    rotary: Result<(), String>,
)
    requires
        defined_by(
            definition,
            hf_config,
            AdapterConfig::KimiLinear { config: Ok(config), rotary },
        ),
    ensures
        definition.architecture@ == "KimiLinearForCausalLM"@,
        definition.hybrid_decoder is Some,
        ({
            let plan = definition.hybrid_decoder->0;
            let linear = config.linear_attn_config->0;
            &&& definition.vocab_size == config.vocab_size
            &&& definition.max_context_length == config.model_max_length
            &&& definition.eos_token_ids@ == hf_config@.eos_token_ids
            &&& definition.kv_cache_layout matches Some(layout) && is_latent_cache(
                layout,
                linear.full_attn_layers->0@.len() as int,
                config.kv_lora_rank->0,
                config.qk_rope_head_dim->0,
            )
            &&& Some(plan.vocab_size) == config.vocab_size
            &&& Some(plan.hidden_size) == config.hidden_size
            &&& Some(plan.max_position_embeddings) == config.model_max_length
            &&& plan.rms_norm_eps == config.rms_norm_eps->0.narrow
            &&& plan.rope_theta == config.rope_theta->0.narrow
            &&& plan.normalization == DecoderNormalization::Rms
            &&& plan.activation == DenseDecoderActivation::Silu
            &&& plan.full_attention matches HybridFullAttentionConfig::MultiLatent {
                num_attention_heads,
                query,
                kv_lora_rank,
                qk_nope_head_dim,
                qk_rope_head_dim,
                value_head_dim,
                skip_rope,
                rotary_embedding,
            } && Some(num_attention_heads) == config.num_attention_heads && Some(kv_lora_rank)
                == config.kv_lora_rank && Some(qk_nope_head_dim) == config.qk_nope_head_dim
                && Some(qk_rope_head_dim) == config.qk_rope_head_dim && Some(value_head_dim)
                == config.v_head_dim && skip_rope && (rotary_embedding matches Some(rope)
                && rope.theta == config.rope_theta->0.narrow && rope.style
                == RotaryEmbeddingStyle::Interleaved) && (query matches MultiLatentQueryConfig::LowRank {
                rank,
            } ==> Some(rank) == config.q_lora_rank) && (query is Direct <==> config.q_lora_rank
                is None)
            &&& plan.linear_attention matches Some(
                HybridLinearAttentionConfig::KeyGatedDelta {
                    conv_kernel_dim,
                    key_head_dim,
                    value_head_dim,
                    num_heads,
                },
            ) && Some(conv_kernel_dim) == linear.short_conv_kernel_size && Some(key_head_dim)
                == linear.head_dim && Some(value_head_dim) == linear.head_dim && Some(num_heads)
                == linear.num_heads
            &&& definition.execution matches ModelExecutionArchitecture::Transformer {
                attention: AttentionArchitecture::HybridMultiLatent {
                    num_attention_heads,
                    qk_nope_head_dim,
                    qk_rope_head_dim,
                    value_head_dim,
                    linear_num_heads,
                    linear_key_head_dim,
                    linear_value_head_dim,
                },
                feed_forward: FeedForwardArchitecture::MixtureOfExperts {
                    routed_expert_count,
                    experts_per_token,
                    shared_expert_count,
                    expert_intermediate_size,
                },
            } && Some(num_attention_heads) == config.num_attention_heads && Some(qk_nope_head_dim)
                == config.qk_nope_head_dim && Some(qk_rope_head_dim) == config.qk_rope_head_dim
                && Some(value_head_dim) == config.v_head_dim && Some(linear_num_heads)
                == linear.num_heads && Some(linear_key_head_dim) == linear.head_dim && Some(
                linear_value_head_dim,
            ) == linear.head_dim && Some(routed_expert_count) == config.num_experts && Some(
                experts_per_token,
            ) == config.num_experts_per_token && Some(expert_intermediate_size)
                == config.moe_intermediate_size && shared_expert_count
                == (match config.num_shared_experts {
                Some(n) => n,
                None => 0usize,
            })
        }),
{
    let full = config.linear_attn_config->0.full_attn_layers->0;
    assert(full@.len() == full.len());
}

/// The layers of a Kimi Linear model that keep keys and those that keep a state are all its layers.
pub proof fn kimi_layers_keep_keys_or_a_state(
    definition: ModelDefinition,
    hf_config: HfModelConfig,
    config: KimiLinearConfig,
    rotary: Result<(), String>,
)
    requires
        defined_by(
            definition,
            hf_config,
            AdapterConfig::KimiLinear { config: Ok(config), rotary },
        ),
    ensures
        ({
            let layers = definition.hybrid_decoder->0.weights.layers@;
            let full = keeping(layers, layers.len() as int);
            let linear = config.linear_attn_config->0;
            &&& full < layers.len() ==> (definition.recurrent_state matches Some(state)
                && state.layer_count == layers.len() - full && Some(state.conv_kernel_dim)
                == linear.short_conv_kernel_size && Some(state.key_head_dim) == linear.head_dim
                && Some(state.value_head_dim) == linear.head_dim && Some(state.num_key_heads)
                == linear.num_heads && Some(state.num_value_heads) == linear.num_heads)
            &&& full < layers.len() ==> (definition.cache_architecture
                matches ModelCacheArchitecture::HybridState {
                full_attention_layer_count,
                recurrent_state_layer_count,
            } && full_attention_layer_count == full && recurrent_state_layer_count == layers.len()
                - full)
            &&& full == layers.len() ==> definition.recurrent_state is None
                && definition.cache_architecture == ModelCacheArchitecture::PagedKv
        }),
{
    let weights = definition.hybrid_decoder->0.weights;
    assert(weights.layers@.len() == weights.layers.len());
    lemma_keeping(weights.layers@, weights.layers@.len() as int);
}

/// The checkpoint of a Kimi Linear model must hold every weight that the plan names, with the shape that
/// the configuration gives to its role.
pub proof fn kimi_checkpoints_hold_the_planned_weights(
    definition: ModelDefinition,
    hf_config: HfModelConfig,
    config: KimiLinearConfig,
    rotary: Result<(), String>,
    i: int,
)
    requires
        defined_by(
            definition,
            hf_config,
            AdapterConfig::KimiLinear { config: Ok(config), rotary },
        ),
        0 <= i < config.num_hidden_layers->0,
    ensures
        ({
            let tensors = definition.checkpoint_topology@.tensors;
            let plan = definition.hybrid_decoder->0;
            let layer = plan.weights.layers@[i];
            let hidden = config.hidden_size->0;
            let linear = config.linear_attn_config->0;
            &&& holds_root(tensors, plan)
            &&& among(tensors, layer.input_norm@, seq![hidden])
            &&& among(tensors, layer.post_attention_norm@, seq![hidden])
            &&& holds_network(tensors, layer.feed_forward, hidden)
            &&& layer.mixer matches HybridDecoderLayerKind::MultiLatentAttention {
                cache_layer_index,
                weights,
            } ==> holds_latent(
                tensors,
                weights,
                hidden,
                config.q_lora_rank,
                config.num_attention_heads->0 as int,
                config.qk_nope_head_dim->0 as int,
                config.qk_rope_head_dim->0 as int,
                config.v_head_dim->0 as int,
                config.kv_lora_rank->0,
            )
            &&& layer.mixer matches HybridDecoderLayerKind::KeyGatedDelta {
                state_layer_index,
                weights,
            } ==> holds_key_gated(
                tensors,
                weights,
                hidden,
                linear.num_heads->0,
                linear.head_dim->0,
                linear.short_conv_kernel_size->0,
            )
        }),
{
    let plan = definition.hybrid_decoder->0;
    let n = plan.weights.layers@.len();
    let mla = crate::kimi_linear::mla_sizes(config);
    let kda = Some(crate::kimi_linear::kda_sizes(config));
    lemma_latent_layers(plan, mla, kda, n, i);
    assert(crate::kimi_linear::names_kimi_layer(
        plan.weights.layers@[i],
        i as nat,
        config.linear_attn_config->0.kda_layers->0@,
        crate::deepseek::query_of(config.q_lora_rank),
        crate::kimi_linear::feed_forward_layout(config),
    ));
}

/// A checkpoint must hold a tensor, of whatever shape.
pub open spec fn must_have(definition: ModelDefinition, name: Seq<char>) -> bool {
    definition.checkpoint_topology@.tensors.contains(TensorRequirement { name, shape: None })
}

/// A tensor, of whatever shape, is among those that are required.
pub open spec fn listed(tensors: Seq<TensorRequirement>, name: Seq<char>) -> bool {
    tensors.contains(TensorRequirement { name, shape: None })
}

proof fn lemma_names(
    tensors: Seq<TensorRequirement>,
    layer_id: nat,
    names: Seq<Seq<char>>,
    n: nat,
)
    requires
        n <= names.len(),
    ensures
        crate::hybrid_laws::extends(
            tensors,
            crate::mla_moe::with_names(tensors, layer_id, names, n),
        ),
        forall|k: int|
            0 <= k < n ==> listed(
                crate::mla_moe::with_names(tensors, layer_id, names, n),
                "model.layers."@ + decimal(layer_id) + "."@ + #[trigger] names[k],
            ),
    decreases n,
{
    if n > 0 {
        let before = crate::mla_moe::with_names(tensors, layer_id, names, (n - 1) as nat);
        let all = crate::mla_moe::with_names(tensors, layer_id, names, n);
        lemma_names(tensors, layer_id, names, (n - 1) as nat);
        assert forall|k: int| 0 <= k < n implies listed(
            all,
            "model.layers."@ + decimal(layer_id) + "."@ + #[trigger] names[k],
        ) by {
            let name = "model.layers."@ + decimal(layer_id) + "."@ + names[k];
            let tensor = TensorRequirement { name, shape: None };
            if k < n - 1 {
                assert(listed(before, name));
                let j = choose|j: int| 0 <= j < before.len() && before[j] == tensor;
                assert(all[j] == tensor);
            } else {
                assert(all[before.len() as int] == tensor);
            }
        }
    }
}

proof fn lemma_listed(a: Seq<TensorRequirement>, b: Seq<TensorRequirement>)
    requires
        crate::hybrid_laws::extends(a, b),
    ensures
        forall|name: Seq<char>| #[trigger] listed(a, name) ==> listed(b, name),
{
    assert forall|name: Seq<char>| #[trigger] listed(a, name) implies listed(b, name) by {
        let tensor = TensorRequirement { name, shape: None };
        let j = choose|j: int| 0 <= j < a.len() && a[j] == tensor;
        assert(b[j] == tensor);
    }
}

proof fn lemma_flavored_layer(
    tensors: Seq<TensorRequirement>,
    config: MlaMoeConfig,
    flavor: crate::mla_moe::MlaMoeCheckpointFlavor,
    layer_id: nat,
)
    ensures
        ({
            let all = crate::mla_moe::with_layer(tensors, config, flavor, layer_id);
            let at = "model.layers."@ + decimal(layer_id) + "."@;
            let names = crate::mla_moe::layer_names_of(flavor);
            let dense = crate::mla_moe::dense_names_of(flavor);
            &&& crate::hybrid_laws::extends(tensors, all)
            &&& forall|k: int| 0 <= k < names.len() ==> listed(all, at + #[trigger] names[k])
            &&& if config.moe_layer(layer_id, config.num_hidden_layers->0 as nat) {
                listed(all, at + "mlp.gate.weight"@)
            } else {
                forall|k: int| 0 <= k < dense.len() ==> listed(all, at + #[trigger] dense[k])
            }
        }),
{
    let all = crate::mla_moe::with_layer(tensors, config, flavor, layer_id);
    let names = crate::mla_moe::layer_names_of(flavor);
    let dense = crate::mla_moe::dense_names_of(flavor);
    let common = crate::mla_moe::with_names(tensors, layer_id, names, names.len());
    let at = "model.layers."@ + decimal(layer_id) + "."@;
    lemma_names(tensors, layer_id, names, names.len());
    if config.moe_layer(layer_id, config.num_hidden_layers->0 as nat) {
        assert(crate::hybrid_laws::extends(common, all));
        assert(all[common.len() as int] == (TensorRequirement {
            name: at + "mlp.gate.weight"@,
            shape: None,
        }));
    } else {
        lemma_names(common, layer_id, dense, dense.len());
    }
    lemma_listed(common, all);
    assert forall|k: int| 0 <= k < names.len() implies listed(all, at + #[trigger] names[k]) by {
        assert(listed(common, at + names[k]));
    }
}

proof fn lemma_flavored(
    config: MlaMoeConfig,
    flavor: crate::mla_moe::MlaMoeCheckpointFlavor,
    n: nat,
    i: nat,
)
    ensures
        ({
            let all = crate::mla_moe::checkpoint_tensors(config, flavor, n);
            let at = "model.layers."@ + decimal(i) + "."@;
            let names = crate::mla_moe::layer_names_of(flavor);
            let dense = crate::mla_moe::dense_names_of(flavor);
            &&& crate::hybrid_laws::extends(crate::mla_moe::root_tensors(config, flavor), all)
            &&& i < n ==> {
                &&& forall|k: int| 0 <= k < names.len() ==> listed(all, at + #[trigger] names[k])
                &&& if config.moe_layer(i, config.num_hidden_layers->0 as nat) {
                    listed(all, at + "mlp.gate.weight"@)
                } else {
                    forall|k: int| 0 <= k < dense.len() ==> listed(all, at + #[trigger] dense[k])
                }
            }
        }),
    decreases n,
{
    if n > 0 {
        let before = crate::mla_moe::checkpoint_tensors(config, flavor, (n - 1) as nat);
        let all = crate::mla_moe::checkpoint_tensors(config, flavor, n);
        lemma_flavored(config, flavor, (n - 1) as nat, i);
        lemma_flavored_layer(before, config, flavor, (n - 1) as nat);
        lemma_listed(before, all);
        if i < n - 1 {
            let at = "model.layers."@ + decimal(i) + "."@;
            let names = crate::mla_moe::layer_names_of(flavor);
            let dense = crate::mla_moe::dense_names_of(flavor);
            assert forall|k: int| 0 <= k < names.len() implies listed(
                all,
                at + #[trigger] names[k],
            ) by {
                assert(listed(before, at + names[k]));
            }
            if config.moe_layer(i, config.num_hidden_layers->0 as nat) {
                assert(listed(before, at + "mlp.gate.weight"@));
            } else {
                assert forall|k: int| 0 <= k < dense.len() implies listed(
                    all,
                    at + #[trigger] dense[k],
                ) by {
                    assert(listed(before, at + dense[k]));
                }
            }
        }
    }
}

/// Whether a layer of a model with shared latent attention has experts.
pub open spec fn layer_has_experts(config: MlaMoeConfig, i: int) -> bool {
    let every = match config.moe_layer_freq {
        Some(n) => n as int,
        None => 1int,
    };
    let first = match config.first_k_dense_replace {
        Some(n) => n as int,
        None => 0int,
    };
    0 <= i < config.num_hidden_layers->0 && every > 0 && i >= first && i % every == 0
}

/// The checkpoint of a DeepSeek V4 model must hold the tensors of its root, of every layer, and of the
/// network of the layer.
pub proof fn deepseek_v4_checkpoints_hold_their_layers(
    definition: ModelDefinition,
    hf_config: HfModelConfig,
    config: MlaMoeConfig,
    i: int,
)
    requires
        defined_by(definition, hf_config, AdapterConfig::MlaMoe(Ok(config))),
        definition.architecture@ == "DeepseekV4ForCausalLM"@,
        0 <= i < config.num_hidden_layers->0,
    ensures
        ({
            let at = "model.layers."@ + decimal(i as nat) + "."@;
            let mult = config.hc_mult->0;
            &&& must_have(definition, "model.embed_tokens.weight"@)
            &&& must_have(definition, "model.norm.weight"@)
            &&& must_have(definition, "lm_head.weight"@)
            &&& must_hold(
                definition,
                "model.hc_head_fn"@,
                seq![mult, (mult * config.hidden_size->0) as usize],
            )
            &&& must_hold(definition, "model.hc_head_base"@, seq![mult])
            &&& must_hold(definition, "model.hc_head_scale"@, seq![1usize])
            &&& must_have(definition, at + "self_attn.wq_a.weight"@)
            &&& must_have(definition, at + "self_attn.wq_b.weight"@)
            &&& must_have(definition, at + "self_attn.wkv.weight"@)
            &&& must_have(definition, at + "self_attn.q_norm.weight"@)
            &&& must_have(definition, at + "self_attn.kv_norm.weight"@)
            &&& must_have(definition, at + "self_attn.wo_a.weight"@)
            &&& must_have(definition, at + "self_attn.wo_b.weight"@)
            &&& must_have(definition, at + "input_layernorm.weight"@)
            &&& must_have(definition, at + "post_attention_layernorm.weight"@)
            &&& must_have(definition, at + "hc_attn_fn"@)
            &&& must_have(definition, at + "hc_attn_base"@)
            &&& must_have(definition, at + "hc_attn_scale"@)
            &&& must_have(definition, at + "hc_ffn_fn"@)
            &&& must_have(definition, at + "hc_ffn_base"@)
            &&& must_have(definition, at + "hc_ffn_scale"@)
            &&& if layer_has_experts(config, i) {
                must_have(definition, at + "mlp.gate.weight"@)
            } else {
                must_have(definition, at + "mlp.gate_up_proj.weight"@) && must_have(
                    definition,
                    at + "mlp.down_proj.weight"@,
                )
            }
        }),
{
    lemma_architectures();
    let flavor = crate::mla_moe::MlaMoeCheckpointFlavor::DeepSeek;
    let n = config.num_hidden_layers->0 as nat;
    lemma_flavored(config, flavor, n, i as nat);
    let all = definition.checkpoint_topology@.tensors;
    let root = crate::mla_moe::root_tensors(config, flavor);
    lemma_root_names(root, all);
    let mult = config.hc_mult->0;
    crate::hybrid_laws::lemma_at(
        all,
        3,
        "model.hc_head_fn"@,
        seq![mult, (mult * config.hidden_size->0) as usize],
    );
    crate::hybrid_laws::lemma_at(all, 4, "model.hc_head_base"@, seq![mult]);
    crate::hybrid_laws::lemma_at(all, 5, "model.hc_head_scale"@, seq![1usize]);
    let at = "model.layers."@ + decimal(i as nat) + "."@;
    let names = crate::mla_moe::layer_names_of(flavor);
    assert(names.len() == 15);
    assert forall|k: int| 0 <= k < 15 implies listed(all, at + #[trigger] names[k]) by {}
    assert(names[0] == "self_attn.wq_a.weight"@);
    assert(names[1] == "self_attn.wq_b.weight"@);
    assert(names[2] == "self_attn.wkv.weight"@);
    assert(names[3] == "self_attn.q_norm.weight"@);
    assert(names[4] == "self_attn.kv_norm.weight"@);
    assert(names[5] == "self_attn.wo_a.weight"@);
    assert(names[6] == "self_attn.wo_b.weight"@);
    assert(names[7] == "input_layernorm.weight"@);
    assert(names[8] == "post_attention_layernorm.weight"@);
    assert(names[9] == "hc_attn_fn"@);
    assert(names[10] == "hc_attn_base"@);
    assert(names[11] == "hc_attn_scale"@);
    assert(names[12] == "hc_ffn_fn"@);
    assert(names[13] == "hc_ffn_base"@);
    assert(names[14] == "hc_ffn_scale"@);
    let dense = crate::mla_moe::dense_names_of(flavor);
    assert(dense[0] == "mlp.gate_up_proj.weight"@);
    assert(dense[1] == "mlp.down_proj.weight"@);
}

proof fn lemma_root_names(root: Seq<TensorRequirement>, all: Seq<TensorRequirement>)
    requires
        crate::hybrid_laws::extends(root, all),
        root.len() >= 3,
        root[0] == (TensorRequirement { name: "model.embed_tokens.weight"@, shape: None }),
        root[1] == (TensorRequirement { name: "model.norm.weight"@, shape: None }),
        root[2] == (TensorRequirement { name: "lm_head.weight"@, shape: None }),
    ensures
        listed(all, "model.embed_tokens.weight"@),
        listed(all, "model.norm.weight"@),
        listed(all, "lm_head.weight"@),
{
    assert(all[0] == root[0]);
    assert(all[1] == root[1]);
    assert(all[2] == root[2]);
}

proof fn lemma_architectures()
    ensures
        "DeepseekV3ForCausalLM"@ != "DeepseekV4ForCausalLM"@,
        "DeepseekV3ForCausalLM"@ != "GlmMoeDsaForCausalLM"@,
        "DeepseekV4ForCausalLM"@ != "GlmMoeDsaForCausalLM"@,
{
    reveal_strlit("DeepseekV3ForCausalLM");
    reveal_strlit("DeepseekV4ForCausalLM");
    reveal_strlit("GlmMoeDsaForCausalLM");
    assert("DeepseekV3ForCausalLM"@[9] == '3');
    assert("DeepseekV4ForCausalLM"@[9] == '4');
    assert("DeepseekV4ForCausalLM"@[0] == 'D');
    assert("GlmMoeDsaForCausalLM"@[0] == 'G' && "DeepseekV3ForCausalLM"@[0] == 'D');
}

/// The checkpoint of a GLM model with shared latent attention must hold the tensors of its root, of
/// every layer, and of the network of the layer.
pub proof fn glm_checkpoints_hold_their_layers(
    definition: ModelDefinition,
    hf_config: HfModelConfig,
    config: MlaMoeConfig,
    i: int,
)
    requires
        defined_by(definition, hf_config, AdapterConfig::MlaMoe(Ok(config))),
        definition.architecture@ == "GlmMoeDsaForCausalLM"@,
        0 <= i < config.num_hidden_layers->0,
    ensures
        ({
            let at = "model.layers."@ + decimal(i as nat) + "."@;
            &&& must_have(definition, "model.embed_tokens.weight"@)
            &&& must_have(definition, "model.norm.weight"@)
            &&& must_have(definition, "lm_head.weight"@)
            &&& must_have(definition, at + "self_attn.q_a_proj.weight"@)
            &&& must_have(definition, at + "self_attn.q_a_layernorm.weight"@)
            &&& must_have(definition, at + "self_attn.q_b_proj.weight"@)
            &&& must_have(definition, at + "self_attn.kv_a_proj_with_mqa.weight"@)
            &&& must_have(definition, at + "self_attn.kv_a_layernorm.weight"@)
            &&& must_have(definition, at + "self_attn.kv_b_proj.weight"@)
            &&& must_have(definition, at + "self_attn.o_proj.weight"@)
            &&& must_have(definition, at + "input_layernorm.weight"@)
            &&& must_have(definition, at + "post_attention_layernorm.weight"@)
            &&& if layer_has_experts(config, i) {
                must_have(definition, at + "mlp.gate.weight"@)
            } else {
                must_have(definition, at + "mlp.gate_proj.weight"@) && must_have(
                    definition,
                    at + "mlp.up_proj.weight"@,
                ) && must_have(definition, at + "mlp.down_proj.weight"@)
            }
        }),
{
    lemma_architectures();
    let flavor = crate::mla_moe::MlaMoeCheckpointFlavor::Glm;
    let n = config.num_hidden_layers->0 as nat;
    lemma_flavored(config, flavor, n, i as nat);
    let all = definition.checkpoint_topology@.tensors;
    lemma_root_names(crate::mla_moe::root_tensors(config, flavor), all);
    let at = "model.layers."@ + decimal(i as nat) + "."@;
    let names = crate::mla_moe::layer_names_of(flavor);
    assert(names.len() == 9);
    assert forall|k: int| 0 <= k < 9 implies listed(all, at + #[trigger] names[k]) by {}
    assert(names[0] == "self_attn.q_a_proj.weight"@);
    assert(names[1] == "self_attn.q_a_layernorm.weight"@);
    assert(names[2] == "self_attn.q_b_proj.weight"@);
    assert(names[3] == "self_attn.kv_a_proj_with_mqa.weight"@);
    assert(names[4] == "self_attn.kv_a_layernorm.weight"@);
    assert(names[5] == "self_attn.kv_b_proj.weight"@);
    assert(names[6] == "self_attn.o_proj.weight"@);
    assert(names[7] == "input_layernorm.weight"@);
    assert(names[8] == "post_attention_layernorm.weight"@);
    let dense = crate::mla_moe::dense_names_of(flavor);
    assert(dense[0] == "mlp.gate_proj.weight"@);
    assert(dense[1] == "mlp.up_proj.weight"@);
    assert(dense[2] == "mlp.down_proj.weight"@);
}

proof fn lemma_expert_places(config: MlaMoeConfig, n: nat, layer: usize, expert: usize)
    requires
        n <= config.num_hidden_layers->0,
    ensures
        crate::mla_moe::checkpoint_experts(config, n).contains((layer, expert)) <==> layer < n
            && expert < config.n_routed_experts->0 && config.moe_layer(
            layer as nat,
            config.num_hidden_layers->0 as nat,
        ),
    decreases n,
{
    if n > 0 {
        let before = crate::mla_moe::checkpoint_experts(config, (n - 1) as nat);
        let all = crate::mla_moe::checkpoint_experts(config, n);
        lemma_expert_places(config, (n - 1) as nat, layer, expert);
        if config.moe_layer((n - 1) as nat, config.num_hidden_layers->0 as nat) {
            let own = Seq::new(
                config.n_routed_experts->0 as nat,
                |e: int| ((n - 1) as usize, e as usize),
            );
            assert(all == before + own);
            if before.contains((layer, expert)) {
                let k = choose|k: int| 0 <= k < before.len() && before[k] == (layer, expert);
                assert(all[k] == (layer, expert));
            }
            if layer == n - 1 && expert < config.n_routed_experts->0 {
                assert(own[expert as int] == (layer, expert));
                assert(all[before.len() + expert as int] == (layer, expert));
            }
            if all.contains((layer, expert)) {
                let k = choose|k: int| 0 <= k < all.len() && all[k] == (layer, expert);
                if k < before.len() {
                    assert(before[k] == (layer, expert));
                } else {
                    assert(own[k - before.len()] == (layer, expert));
                }
            }
        }
    }
}

proof fn lemma_places(coordinates: Seq<(usize, usize)>, layer: usize, expert: usize)
    ensures
        places(coordinates).contains(ExpertPlace { layer_id: layer, expert_id: expert })
            <==> coordinates.contains((layer, expert)),
{
    let mapped = coordinates.map_values(
        |at: (usize, usize)| ExpertPlace { layer_id: at.0, expert_id: at.1 },
    );
    let place = ExpertPlace { layer_id: layer, expert_id: expert };
    if coordinates.contains((layer, expert)) {
        let k = choose|k: int| 0 <= k < coordinates.len() && coordinates[k] == (layer, expert);
        assert(mapped[k] == place);
    }
    if mapped.contains(place) {
        let k = choose|k: int| 0 <= k < mapped.len() && mapped[k] == place;
        assert(coordinates[k] == (layer, expert));
    }
}

/// The checkpoint of a model with shared latent attention must hold three weights for every routed
/// expert of every layer that has experts, and of no other. The cache of the model packs its latents,
/// and the sizes of the model are those of its configuration.
pub proof fn shared_latent_models_have_their_experts(
    definition: ModelDefinition,
    hf_config: HfModelConfig,
    config: MlaMoeConfig,
    layer: usize,
    expert: usize,
)
    requires
        defined_by(definition, hf_config, AdapterConfig::MlaMoe(Ok(config))),
        definition.architecture@ != "DeepseekV3ForCausalLM"@,
    ensures
        definition.checkpoint_topology@.weights_per_group == 3,
        definition.checkpoint_topology@.experts.contains(
            ExpertPlace { layer_id: layer, expert_id: expert },
        ) <==> layer_has_experts(config, layer as int) && expert < config.n_routed_experts->0,
        is_latent_execution(definition.execution, config),
        definition.kv_cache_layout matches Some(layout) && layout.num_layers
            == config.num_hidden_layers->0 && layout.kv_heads == 1 && layout.kv_tensors_per_token
            == 1 && layout.tensor_geometry == KvCacheTensorGeometry::PackedBytes
            && layout.bytes_per_token_per_layer == Some(layout.head_dim) && layout.head_dim
            == config.qk_nope_head_dim->0 + config.qk_rope_head_dim->0
            + config.qk_rope_head_dim->0 + config.qk_nope_head_dim->0 / 64 + 1,
        definition.vocab_size == config.vocab_size,
        definition.max_context_length == (if config.max_position_embeddings is Some {
            config.max_position_embeddings
        } else {
            Some(32_768usize)
        }),
        definition.eos_token_ids@ == hf_config@.eos_token_ids,
        definition.dense_decoder is None,
        definition.hybrid_decoder is None,
{
    lemma_architectures();
    let n = config.num_hidden_layers->0 as nat;
    lemma_expert_places(config, n, layer, expert);
    lemma_places(crate::mla_moe::checkpoint_experts(config, n), layer, expert);
}

proof fn lemma_planned_places(
    layers: Seq<HybridDecoderLayerWeightNames>,
    n: nat,
    layer: usize,
    expert: usize,
)
    requires
        n <= layers.len() <= usize::MAX,
        forall|i: int|
            0 <= i < layers.len() ==> crate::mla_plans::experts_in(#[trigger] layers[i])
                <= usize::MAX,
    ensures
        expert_coordinates(layers, n).contains((layer, expert)) <==> layer < n && (
        layers[layer as int].feed_forward matches HybridFeedForward::MixtureOfExperts {
            config,
            weights,
        } && expert < weights.experts@.len()),
    decreases n,
{
    if n > 0 {
        let before = expert_coordinates(layers, (n - 1) as nat);
        let all = expert_coordinates(layers, n);
        lemma_planned_places(layers, (n - 1) as nat, layer, expert);
        let count = crate::mla_plans::experts_in(layers[n - 1]);
        let own = Seq::new(count, |e: int| ((n - 1) as usize, e as usize));
        assert(all == before + own);
        if before.contains((layer, expert)) {
            let k = choose|k: int| 0 <= k < before.len() && before[k] == (layer, expert);
            assert(all[k] == (layer, expert));
        }
        if layer == n - 1 && expert < count {
            assert(own[expert as int] == (layer, expert));
            assert(all[before.len() + expert as int] == (layer, expert));
        }
        if all.contains((layer, expert)) {
            let k = choose|k: int| 0 <= k < all.len() && all[k] == (layer, expert);
            if k < before.len() {
                assert(before[k] == (layer, expert));
            } else {
                assert(own[k - before.len()] == (layer, expert));
            }
        }
    }
}

/// The checkpoint of a model whose plan names its experts must hold three weights for exactly those
/// experts.
pub proof fn planned_experts_are_required(
    definition: ModelDefinition,
    hf_config: HfModelConfig,
    config: AdapterConfig,
    layer: usize,
    expert: usize,
)
    requires
        defined_by(definition, hf_config, config),
        config is KimiLinear || definition.architecture@ == "DeepseekV3ForCausalLM"@,
    ensures
        definition.hybrid_decoder is Some,
        definition.checkpoint_topology@.weights_per_group == 3,
        ({
            let layers = definition.hybrid_decoder->0.weights.layers@;
            definition.checkpoint_topology@.experts.contains(
                ExpertPlace { layer_id: layer, expert_id: expert },
            ) <==> layer < layers.len() && (layers[layer as int].feed_forward
                matches HybridFeedForward::MixtureOfExperts { config: moe, weights } && expert
                < weights.experts@.len())
        }),
{
    lemma_architectures();
    lemma_more_architectures();
    let weights = definition.hybrid_decoder->0.weights;
    let layers = weights.layers@;
    assert(layers.len() == weights.layers.len());
    assert forall|i: int| 0 <= i < layers.len() implies crate::mla_plans::experts_in(
        #[trigger] layers[i],
    ) <= usize::MAX by {
        if let HybridFeedForward::MixtureOfExperts { config: moe, weights: w } =
            layers[i].feed_forward {
            assert(w.experts@.len() == w.experts.len());
        }
    }
    lemma_planned_places(layers, layers.len(), layer, expert);
    lemma_places(expert_coordinates(layers, layers.len()), layer, expert);
}

proof fn lemma_more_architectures()
    ensures
        "DeepseekV3ForCausalLM"@ != "Qwen2ForCausalLM"@,
        "DeepseekV3ForCausalLM"@ != "Qwen3ForCausalLM"@,
        "DeepseekV3ForCausalLM"@ != "Qwen3_5ForConditionalGeneration"@,
        "DeepseekV3ForCausalLM"@ != "KimiLinearForCausalLM"@,
{
    reveal_strlit("DeepseekV3ForCausalLM");
    reveal_strlit("Qwen2ForCausalLM");
    reveal_strlit("Qwen3ForCausalLM");
    reveal_strlit("Qwen3_5ForConditionalGeneration");
    reveal_strlit("KimiLinearForCausalLM");
    assert("DeepseekV3ForCausalLM"@[0] == 'D');
    assert("Qwen2ForCausalLM"@[0] == 'Q');
    assert("Qwen3ForCausalLM"@[0] == 'Q');
    assert("Qwen3_5ForConditionalGeneration"@[0] == 'Q');
    assert("KimiLinearForCausalLM"@[0] == 'K');
}

} // verus!
