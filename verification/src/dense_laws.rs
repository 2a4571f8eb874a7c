//! What the registry promises of the dense models that it defines: the weights that a plan names are
//! those of the checkpoint, with the shapes that the configuration gives.
use vstd::prelude::*;

use crate::artifact_error::ModelArtifactError;
use crate::checkpoint::TensorRequirement;
use crate::decoder_plans::{named, DenseDecoderExecutionPlan, DenseDecoderLayerWeightNames};
use crate::kv_cache::KvCacheTensorGeometry;
use crate::model_config::HfModelConfig;
use crate::local_model::{LocalModel, LocalModelArtifacts};
use crate::model_definition::{
    dense_layer_tensors, dense_tensors, dense_tensors_met, with_dense_layer_in_order, DenseSizes,
    ModelDefinition,
};
use crate::model_registry::{AdapterConfig, ModelRegistry, ModelRegistryError};
use crate::models::{
    AttentionArchitecture, DenseDecoderActivation, FeedForwardArchitecture,
    ModelExecutionArchitecture,
};
use crate::qwen::QwenDenseConfig;
use crate::safetensors_spans::metadata_in;
use crate::text::decimal;

verus! {

/// Whether a registry has defined a dense model from a configuration.
pub open spec fn defines_dense(
    definition: Result<ModelDefinition, ModelRegistryError>,
    hf_config: HfModelConfig,
    config: QwenDenseConfig,
) -> bool {
    exists|registry: ModelRegistry, model_path: &str| #[trigger]
        call_ensures(
            ModelRegistry::definition,
            (registry, model_path, &hf_config, AdapterConfig::QwenDense(Ok(config))),
            definition,
        )
}

/// The name of a weight of a layer.
pub open spec fn in_layer(i: int, role: Seq<char>) -> Seq<char> {
    "model.layers."@ + decimal(i as nat) + role
}

/// A weight that may be absent has a name exactly where it is there.
pub open spec fn is_named(name: Option<String>, there: bool, text: Seq<char>) -> bool {
    there && name is Some && name->0@ == text || !there && name is None
}

/// Prefixes of layers are written out.
proof fn lemma_layer_prefix(i: nat)
    ensures
        forall|role: Seq<char>| #[trigger]
            in_layer(i as int, role) == crate::decoder_plans::layer_prefix("model"@, i) + role,
{
    reveal_strlit("model");
    reveal_strlit(".layers.");
    reveal_strlit("model.layers.");
    assert("model"@ + ".layers."@ =~= "model.layers."@);
}

/// In every layer the plan of a dense model gives each role the checkpoint name of that role. Biases of
/// the inputs are those of the second generation, and of the third where the configuration asks for
/// them, which then has a bias of the output too; norms of the heads are those of the third.
pub proof fn dense_weights_are_named_after_their_roles(
    definition: ModelDefinition,
    hf_config: HfModelConfig,
    config: QwenDenseConfig,
    i: int,
)
    requires
        defines_dense(Ok(definition), hf_config, config),
    ensures
        definition.dense_decoder is Some,
        definition.architecture@ == "Qwen2ForCausalLM"@ || definition.architecture@
            == "Qwen3ForCausalLM"@,
        ({
            let weights = definition.dense_decoder->0.weights;
            let third = definition.architecture@ == "Qwen3ForCausalLM"@;
            let biased = config.attention_bias == Some(true);
            &&& weights.token_embeddings@ == "model.embed_tokens.weight"@
            &&& weights.final_norm@ == "model.norm.weight"@
            &&& is_named(
                weights.lm_head,
                config.tie_word_embeddings != Some(true),
                "lm_head.weight"@,
            )
            &&& config.num_hidden_layers is Some
            &&& weights.layers@.len() == config.num_hidden_layers->0
            &&& 0 <= i < weights.layers@.len() ==> {
                let layer = weights.layers@[i];
                &&& layer.input_norm@ == in_layer(i, ".input_layernorm.weight"@)
                &&& layer.query_weight@ == in_layer(i, ".self_attn.q_proj.weight"@)
                &&& layer.key_weight@ == in_layer(i, ".self_attn.k_proj.weight"@)
                &&& layer.value_weight@ == in_layer(i, ".self_attn.v_proj.weight"@)
                &&& layer.output_weight@ == in_layer(i, ".self_attn.o_proj.weight"@)
                &&& layer.post_attention_norm@ == in_layer(i, ".post_attention_layernorm.weight"@)
                &&& layer.gate_weight@ == in_layer(i, ".mlp.gate_proj.weight"@)
                &&& layer.up_weight@ == in_layer(i, ".mlp.up_proj.weight"@)
                &&& layer.down_weight@ == in_layer(i, ".mlp.down_proj.weight"@)
                &&& is_named(
                    layer.query_bias,
                    !third || biased,
                    in_layer(i, ".self_attn.q_proj.bias"@),
                )
                &&& is_named(
                    layer.key_bias,
                    !third || biased,
                    in_layer(i, ".self_attn.k_proj.bias"@),
                )
                &&& is_named(
                    layer.value_bias,
                    !third || biased,
                    in_layer(i, ".self_attn.v_proj.bias"@),
                )
                &&& is_named(
                    layer.output_bias,
                    third && biased,
                    in_layer(i, ".self_attn.o_proj.bias"@),
                )
                &&& is_named(layer.query_norm, third, in_layer(i, ".self_attn.q_norm.weight"@))
                &&& is_named(layer.key_norm, third, in_layer(i, ".self_attn.k_norm.weight"@))
            }
        }),
{
    reveal_strlit("Qwen2ForCausalLM");
    reveal_strlit("Qwen3ForCausalLM");
    assert("Qwen2ForCausalLM"@[4] == '2');
    assert("Qwen3ForCausalLM"@[4] == '3');
    let weights = definition.dense_decoder->0.weights;
    if 0 <= i < weights.layers@.len() {
        lemma_layer_prefix(i as nat);
        let layer = weights.layers@[i];
        assert(named(layer.query_bias) is Some <==> layer.query_bias is Some);
        assert(named(layer.key_bias) is Some <==> layer.key_bias is Some);
        assert(named(layer.value_bias) is Some <==> layer.value_bias is Some);
        assert(named(layer.output_bias) is Some <==> layer.output_bias is Some);
        assert(named(layer.query_norm) is Some <==> layer.query_norm is Some);
        assert(named(layer.key_norm) is Some <==> layer.key_norm is Some);
    }
}

/// The heads that keys and values have: as many as were asked for, or else as many as the queries.
pub open spec fn key_heads(config: QwenDenseConfig) -> int {
    match config.num_key_value_heads {
        Some(n) => n as int,
        None => config.num_attention_heads->0 as int,
    }
}

/// The width of a head: the hidden size over the heads of the unpruned model, or the width that was
/// asked for, or the hidden size over the heads.
pub open spec fn head_width(config: QwenDenseConfig) -> int {
    match (config.original_num_attention_heads, config.head_dim) {
        (Some(n), _) => config.hidden_size->0 as int / n as int,
        (None, Some(width)) => width as int,
        (None, None) => config.hidden_size->0 as int / config.num_attention_heads->0 as int,
    }
}

/// A dense model has the sizes of its configuration, two tensors of keys and values in every layer, and
/// the plan tells the numbers of the configuration.
pub proof fn dense_models_have_the_sizes_of_their_configuration(
    definition: ModelDefinition,
    hf_config: HfModelConfig,
    config: QwenDenseConfig,
)
    requires
        defines_dense(Ok(definition), hf_config, config),
    ensures
        definition.execution matches ModelExecutionArchitecture::Transformer {
            attention: AttentionArchitecture::MultiHead {
                num_attention_heads,
                num_key_value_heads,
                head_dim,
            },
            feed_forward: FeedForwardArchitecture::Dense { intermediate_size },
        } && Some(num_attention_heads) == config.num_attention_heads && num_key_value_heads
            == key_heads(config) && head_dim == head_width(config) && Some(intermediate_size)
            == config.intermediate_size,
        definition.kv_cache_layout matches Some(layout) && {
            &&& Some(layout.num_layers) == config.num_hidden_layers
            &&& layout.kv_heads == key_heads(config)
            &&& layout.head_dim == head_width(config)
            &&& layout.kv_tensors_per_token == 2
            &&& layout.bytes_per_token_per_layer is None
            &&& layout.tensor_geometry == KvCacheTensorGeometry::Uniform
        },
        definition.vocab_size == config.vocab_size,
        definition.max_context_length == (if config.max_position_embeddings is Some {
            config.max_position_embeddings
        } else {
            Some(32_768usize)
        }),
        definition.eos_token_ids@ == hf_config@.eos_token_ids,
        definition.hybrid_decoder is None,
        definition.recurrent_state is None,
        definition.dense_decoder is Some,
        ({
            let plan = definition.dense_decoder->0;
            &&& Some(plan.vocab_size) == config.vocab_size
            &&& Some(plan.hidden_size) == config.hidden_size
            &&& Some(plan.max_position_embeddings) == definition.max_context_length
            &&& config.rms_norm_eps is Some
            &&& plan.rms_norm_eps == config.rms_norm_eps->0.narrow
            &&& plan.rope_theta == match (config.rope_theta, config.rope_parameters_theta) {
                (Some(theta), _) => theta.narrow,
                (None, Some(theta)) => theta.narrow,
                (None, None) => 0x4974_2400u32,
            }
            &&& plan.activation == DenseDecoderActivation::Silu
        }),
{
    let hidden = config.hidden_size->0 as int;
    if config.original_num_attention_heads is Some {
        lemma_quotient_fits(hidden, config.original_num_attention_heads->0 as int);
    } else if config.head_dim is None {
        lemma_quotient_fits(hidden, config.num_attention_heads->0 as int);
    }
}

/// A quotient is no larger than what is divided.
proof fn lemma_quotient_fits(a: int, b: int)
    requires
        0 <= a <= usize::MAX,
        0 < b,
    ensures
        0 <= a / b <= usize::MAX,
{
    vstd::arithmetic::div_mod::lemma_div_pos_is_pos(a, b);
    vstd::arithmetic::div_mod::lemma_div_is_ordered_by_denominator(a, 1, b);
}

/// A checkpoint must hold a tensor of a shape.
pub open spec fn must_hold(definition: ModelDefinition, name: Seq<char>, shape: Seq<usize>) -> bool {
    definition.checkpoint_topology@.tensors.contains(
        TensorRequirement { name, shape: Some(shape) },
    )
}

/// A tensor of a shape is among those that are required.
pub open spec fn among(tensors: Seq<TensorRequirement>, name: Seq<char>, shape: Seq<usize>) -> bool {
    tensors.contains(TensorRequirement { name, shape: Some(shape) })
}

/// What is required stays so where more is.
proof fn lemma_more(tensors: Seq<TensorRequirement>, more: TensorRequirement)
    ensures
        tensors.push(more).contains(more),
        forall|tensor: TensorRequirement|
            tensors.contains(tensor) ==> #[trigger] tensors.push(more).contains(tensor),
{
    assert(tensors.push(more)[tensors.len() as int] == more);
    assert forall|tensor: TensorRequirement| tensors.contains(tensor) implies #[trigger] tensors.push(
        more,
    ).contains(tensor) by {
        let k = choose|k: int| 0 <= k < tensors.len() && tensors[k] == tensor;
        assert(tensors.push(more)[k] == tensor);
    }
}

/// What is required stays so where a tensor is that may be absent.
proof fn lemma_more_optional(
    tensors: Seq<TensorRequirement>,
    name: Option<String>,
    shape: Seq<usize>,
)
    ensures
        forall|tensor: TensorRequirement|
            tensors.contains(tensor) ==> #[trigger] crate::decoder_plans::with_optional(
                tensors,
                name,
                shape,
            ).contains(tensor),
        name matches Some(text) ==> among(
            crate::decoder_plans::with_optional(tensors, name, shape),
            text@,
            shape,
        ),
{
    if name is Some {
        lemma_more(tensors, crate::decoder_plans::shaped(name->0@, shape));
    }
}

/// The tensors of a layer are among those of the plan.
pub open spec fn layer_among(
    tensors: Seq<TensorRequirement>,
    layer: DenseDecoderLayerWeightNames,
    hidden: usize,
    query: usize,
    kv: usize,
    head: usize,
    intermediate: usize,
) -> bool {
    &&& among(tensors, layer.input_norm@, seq![hidden])
    &&& among(tensors, layer.query_weight@, seq![query, hidden])
    &&& among(tensors, layer.key_weight@, seq![kv, hidden])
    &&& among(tensors, layer.value_weight@, seq![kv, hidden])
    &&& among(tensors, layer.output_weight@, seq![hidden, query])
    &&& among(tensors, layer.post_attention_norm@, seq![hidden])
    &&& among(tensors, layer.gate_weight@, seq![intermediate, hidden])
    &&& among(tensors, layer.up_weight@, seq![intermediate, hidden])
    &&& among(tensors, layer.down_weight@, seq![hidden, intermediate])
    &&& layer.query_bias matches Some(name) ==> among(tensors, name@, seq![query])
    &&& layer.query_norm matches Some(name) ==> among(tensors, name@, seq![head])
    &&& layer.key_bias matches Some(name) ==> among(tensors, name@, seq![kv])
    &&& layer.key_norm matches Some(name) ==> among(tensors, name@, seq![head])
    &&& layer.value_bias matches Some(name) ==> among(tensors, name@, seq![kv])
    &&& layer.output_bias matches Some(name) ==> among(tensors, name@, seq![hidden])
}

/// The tensors of a layer are required with it, and what was required before stays so.
#[verifier::rlimit(40)]
proof fn lemma_layer(
    tensors: Seq<TensorRequirement>,
    layer: DenseDecoderLayerWeightNames,
    hidden: usize,
    sizes: DenseSizes,
)
    ensures
        layer_among(
            crate::model_definition::with_dense_layer(tensors, layer, hidden, sizes),
            layer,
            hidden,
            sizes.query_size,
            sizes.kv_size,
            sizes.head_dim,
            sizes.intermediate_size,
        ),
        forall|tensor: TensorRequirement|
            tensors.contains(tensor) ==> #[trigger] crate::model_definition::with_dense_layer(
                tensors,
                layer,
                hidden,
                sizes,
            ).contains(tensor),
{
    let q = sizes.query_size;
    let kv = sizes.kv_size;
    let h = hidden;
    let m = sizes.intermediate_size;
    let s0 = tensors;
    let r1 = crate::decoder_plans::shaped(layer.input_norm@, seq![h]);
    let s1 = s0.push(r1);
    let r2 = crate::decoder_plans::shaped(layer.query_weight@, seq![q, h]);
    let s2 = s1.push(r2);
    let r3 = crate::decoder_plans::shaped(layer.key_weight@, seq![kv, h]);
    let s3 = s2.push(r3);
    let r4 = crate::decoder_plans::shaped(layer.value_weight@, seq![kv, h]);
    let s4 = s3.push(r4);
    let r5 = crate::decoder_plans::shaped(layer.output_weight@, seq![h, q]);
    let s5 = s4.push(r5);
    let r6 = crate::decoder_plans::shaped(layer.post_attention_norm@, seq![h]);
    let s6 = s5.push(r6);
    let r7 = crate::decoder_plans::shaped(layer.gate_weight@, seq![m, h]);
    let s7 = s6.push(r7);
    let r8 = crate::decoder_plans::shaped(layer.up_weight@, seq![m, h]);
    let s8 = s7.push(r8);
    let r9 = crate::decoder_plans::shaped(layer.down_weight@, seq![h, m]);
    let s9 = s8.push(r9);
    lemma_more(s0, r1);
    lemma_more(s1, r2);
    lemma_more(s2, r3);
    lemma_more(s3, r4);
    lemma_more(s4, r5);
    lemma_more(s5, r6);
    lemma_more(s6, r7);
    lemma_more(s7, r8);
    lemma_more(s8, r9);
    let t1 = crate::decoder_plans::with_optional(s9, layer.query_bias, seq![q]);
    let t2 = crate::decoder_plans::with_optional(t1, layer.query_norm, seq![sizes.head_dim]);
    let t3 = crate::decoder_plans::with_optional(t2, layer.key_bias, seq![kv]);
    let t4 = crate::decoder_plans::with_optional(t3, layer.key_norm, seq![sizes.head_dim]);
    let t5 = crate::decoder_plans::with_optional(t4, layer.value_bias, seq![kv]);
    let t6 = crate::decoder_plans::with_optional(t5, layer.output_bias, seq![h]);
    lemma_more_optional(s9, layer.query_bias, seq![q]);
    lemma_more_optional(t1, layer.query_norm, seq![sizes.head_dim]);
    lemma_more_optional(t2, layer.key_bias, seq![kv]);
    lemma_more_optional(t3, layer.key_norm, seq![sizes.head_dim]);
    lemma_more_optional(t4, layer.value_bias, seq![kv]);
    lemma_more_optional(t5, layer.output_bias, seq![h]);
    assert(t6 == crate::model_definition::with_dense_layer(tensors, layer, hidden, sizes));
}

/// Every layer is among the tensors of a plan.
proof fn lemma_layers(plan: DenseDecoderExecutionPlan, sizes: DenseSizes, n: nat, i: int)
    requires
        0 <= i < n <= plan.weights.layers@.len(),
    ensures
        layer_among(
            dense_tensors(plan, sizes, n),
            plan.weights.layers@[i],
            plan.hidden_size,
            sizes.query_size,
            sizes.kv_size,
            sizes.head_dim,
            sizes.intermediate_size,
        ),
    decreases n,
{
    lemma_layer(
        dense_tensors(plan, sizes, (n - 1) as nat),
        plan.weights.layers@[n - 1],
        plan.hidden_size,
        sizes,
    );
    if i < n - 1 {
        lemma_layers(plan, sizes, (n - 1) as nat, i);
    }
}

/// What stands outside the layers is among the tensors of a plan.
proof fn lemma_root(plan: DenseDecoderExecutionPlan, sizes: DenseSizes, n: nat)
    requires
        n <= plan.weights.layers@.len(),
    ensures
        ({
            let tensors = dense_tensors(plan, sizes, n);
            let table = seq![plan.vocab_size, plan.hidden_size];
            &&& among(tensors, plan.weights.token_embeddings@, table)
            &&& among(tensors, plan.weights.final_norm@, seq![plan.hidden_size])
            &&& plan.weights.lm_head matches Some(name) ==> among(tensors, name@, table)
        }),
    decreases n,
{
    if n == 0 {
        let table = seq![plan.vocab_size, plan.hidden_size];
        let none = Seq::<TensorRequirement>::empty();
        let r1 = crate::decoder_plans::shaped(plan.weights.token_embeddings@, table);
        let r2 = crate::decoder_plans::shaped(plan.weights.final_norm@, seq![plan.hidden_size]);
        lemma_more(none, r1);
        lemma_more(none.push(r1), r2);
        lemma_more_optional(none.push(r1).push(r2), plan.weights.lm_head, table);
    } else {
        lemma_root(plan, sizes, (n - 1) as nat);
        lemma_layer(
            dense_tensors(plan, sizes, (n - 1) as nat),
            plan.weights.layers@[n - 1],
            plan.hidden_size,
            sizes,
        );
    }
}

/// The checkpoint of a dense model must hold every weight that the plan names, with the shape that the
/// configuration gives to its role: a projection has a row for every element it makes and a column for
/// every element it reads.
pub proof fn dense_checkpoints_hold_the_planned_weights(
    definition: ModelDefinition,
    hf_config: HfModelConfig,
    config: QwenDenseConfig,
    i: int,
)
    requires
        defines_dense(Ok(definition), hf_config, config),
        0 <= i < config.num_hidden_layers->0,
    ensures
        ({
            let hidden = config.hidden_size->0;
            let vocab = config.vocab_size->0;
            let query = config.num_attention_heads->0 * head_width(config);
            let kv = key_heads(config) * head_width(config);
            let plan = definition.dense_decoder->0;
            &&& 0 <= query <= usize::MAX
            &&& 0 <= kv <= usize::MAX
            &&& must_hold(definition, "model.embed_tokens.weight"@, seq![vocab, hidden])
            &&& must_hold(definition, "model.norm.weight"@, seq![hidden])
            &&& config.tie_word_embeddings != Some(true) ==> must_hold(
                definition,
                "lm_head.weight"@,
                seq![vocab, hidden],
            )
            &&& layer_among(
                definition.checkpoint_topology@.tensors,
                plan.weights.layers@[i],
                hidden,
                query as usize,
                kv as usize,
                head_width(config) as usize,
                config.intermediate_size->0,
            )
        }),
{
    dense_weights_are_named_after_their_roles(definition, hf_config, config, i);
    dense_models_have_the_sizes_of_their_configuration(definition, hf_config, config);
    let plan = definition.dense_decoder->0;
    let sizes = crate::model_definition::dense_sizes(definition.execution);
    let n = plan.weights.layers@.len();
    lemma_layers(plan, sizes, n, i);
    lemma_root(plan, sizes, n);
    assert(config.num_attention_heads->0 * head_width(config) >= 0) by (nonlinear_arith)
        requires
            config.num_attention_heads->0 >= 0,
            head_width(config) >= 0,
    ;
    assert(key_heads(config) * head_width(config) >= 0) by (nonlinear_arith)
        requires
            key_heads(config) >= 0,
            head_width(config) >= 0,
    ;
}

/// The tensors of a layer, each bias and norm behind its weight, are required with it.
#[verifier::rlimit(60)]
proof fn lemma_layer_in_order(
    tensors: Seq<TensorRequirement>,
    layer: DenseDecoderLayerWeightNames,
    hidden: usize,
    sizes: DenseSizes,
)
    ensures
        layer_among(
            with_dense_layer_in_order(tensors, layer, hidden, sizes),
            layer,
            hidden,
            sizes.query_size,
            sizes.kv_size,
            sizes.head_dim,
            sizes.intermediate_size,
        ),
        forall|tensor: TensorRequirement|
            tensors.contains(tensor) ==> #[trigger] with_dense_layer_in_order(
                tensors,
                layer,
                hidden,
                sizes,
            ).contains(tensor),
{
    let q = sizes.query_size;
    let kv = sizes.kv_size;
    let h = hidden;
    let d = sizes.head_dim;
    let m = sizes.intermediate_size;
    let s0 = tensors;
    let r1 = crate::decoder_plans::shaped(layer.input_norm@, seq![h]);
    let s1 = s0.push(r1);
    lemma_more(s0, r1);
    let r2 = crate::decoder_plans::shaped(layer.query_weight@, seq![q, h]);
    let s2 = s1.push(r2);
    lemma_more(s1, r2);
    let s3 = crate::decoder_plans::with_optional(s2, layer.query_bias, seq![q]);
    lemma_more_optional(s2, layer.query_bias, seq![q]);
    let s4 = crate::decoder_plans::with_optional(s3, layer.query_norm, seq![d]);
    lemma_more_optional(s3, layer.query_norm, seq![d]);
    let r5 = crate::decoder_plans::shaped(layer.key_weight@, seq![kv, h]);
    let s5 = s4.push(r5);
    lemma_more(s4, r5);
    let s6 = crate::decoder_plans::with_optional(s5, layer.key_bias, seq![kv]);
    lemma_more_optional(s5, layer.key_bias, seq![kv]);
    let s7 = crate::decoder_plans::with_optional(s6, layer.key_norm, seq![d]);
    lemma_more_optional(s6, layer.key_norm, seq![d]);
    let r8 = crate::decoder_plans::shaped(layer.value_weight@, seq![kv, h]);
    let s8 = s7.push(r8);
    lemma_more(s7, r8);
    let s9 = crate::decoder_plans::with_optional(s8, layer.value_bias, seq![kv]);
    lemma_more_optional(s8, layer.value_bias, seq![kv]);
    let r10 = crate::decoder_plans::shaped(layer.output_weight@, seq![h, q]);
    let s10 = s9.push(r10);
    lemma_more(s9, r10);
    let s11 = crate::decoder_plans::with_optional(s10, layer.output_bias, seq![h]);
    lemma_more_optional(s10, layer.output_bias, seq![h]);
    let r12 = crate::decoder_plans::shaped(layer.post_attention_norm@, seq![h]);
    let s12 = s11.push(r12);
    lemma_more(s11, r12);
    let r13 = crate::decoder_plans::shaped(layer.gate_weight@, seq![m, h]);
    let s13 = s12.push(r13);
    lemma_more(s12, r13);
    let r14 = crate::decoder_plans::shaped(layer.up_weight@, seq![m, h]);
    let s14 = s13.push(r14);
    lemma_more(s13, r14);
    let r15 = crate::decoder_plans::shaped(layer.down_weight@, seq![h, m]);
    let s15 = s14.push(r15);
    lemma_more(s14, r15);
    assert(s15 == with_dense_layer_in_order(tensors, layer, hidden, sizes));
}

/// Every layer is among the tensors of the layers.
proof fn lemma_layers_in_order(plan: DenseDecoderExecutionPlan, sizes: DenseSizes, n: nat, i: int)
    requires
        0 <= i < n <= plan.weights.layers@.len(),
    ensures
        layer_among(
            dense_layer_tensors(plan, sizes, n),
            plan.weights.layers@[i],
            plan.hidden_size,
            sizes.query_size,
            sizes.kv_size,
            sizes.head_dim,
            sizes.intermediate_size,
        ),
    decreases n,
{
    lemma_layer_in_order(
        dense_layer_tensors(plan, sizes, (n - 1) as nat),
        plan.weights.layers@[n - 1],
        plan.hidden_size,
        sizes,
    );
    if i < n - 1 {
        lemma_layers_in_order(plan, sizes, (n - 1) as nat, i);
    }
}

/// A checkpoint has a tensor of this shape.
pub open spec fn has_shaped(model: LocalModel, name: Seq<char>, shape: Seq<usize>) -> bool {
    metadata_in(model.safetensors, model.shards, name) matches Ok(Some(found)) && found.shape
        == shape
}

/// What is among the tensors that were met is there.
proof fn lemma_met(
    model: LocalModel,
    tensors: Seq<TensorRequirement>,
    n: nat,
    name: Seq<char>,
    shape: Seq<usize>,
    k: int,
)
    requires
        n <= tensors.len(),
        dense_tensors_met(model, tensors, n) is Ok,
        0 <= k < n,
        tensors[k] == (TensorRequirement { name, shape: Some(shape) }),
    ensures
        has_shaped(model, name, shape),
    decreases n,
{
    if k < n - 1 {
        lemma_met(model, tensors, (n - 1) as nat, name, shape, k);
    }
}

/// What is among the tensors that were met is there.
proof fn lemma_met_among(
    model: LocalModel,
    tensors: Seq<TensorRequirement>,
    name: Seq<char>,
    shape: Seq<usize>,
)
    requires
        dense_tensors_met(model, tensors, tensors.len()) is Ok,
        among(tensors, name, shape),
    ensures
        has_shaped(model, name, shape),
{
    let wanted = TensorRequirement { name, shape: Some(shape) };
    let k = choose|k: int| 0 <= k < tensors.len() && tensors[k] == wanted;
    lemma_met(model, tensors, tensors.len(), name, shape, k);
}

/// A checkpoint that is accepted for a dense decoder has the weights of every layer, with the shapes
/// that the sizes of the model give them.
pub proof fn accepted_dense_checkpoints_have_their_weights(
    definition: ModelDefinition,
    artifacts: LocalModelArtifacts,
    heads: usize,
    kv_heads: usize,
    head_dim: usize,
    intermediate: usize,
    i: int,
)
    requires
        call_ensures(
            ModelDefinition::validate_dense_decoder_checkpoint,
            (&definition, &artifacts),
            Ok::<(), ModelArtifactError>(()),
        ),
        definition.execution == (ModelExecutionArchitecture::Transformer {
            attention: AttentionArchitecture::MultiHead {
                num_attention_heads: heads,
                num_key_value_heads: kv_heads,
                head_dim,
            },
            feed_forward: FeedForwardArchitecture::Dense { intermediate_size: intermediate },
        }),
        definition.dense_decoder is Some,
        0 <= i < definition.dense_decoder->0.weights.layers@.len(),
    ensures
        ({
            let plan = definition.dense_decoder->0;
            let layer = plan.weights.layers@[i];
            let hidden = plan.hidden_size;
            let query = (heads * head_dim) as usize;
            let kv = (kv_heads * head_dim) as usize;
            let model = artifacts@;
            &&& heads * head_dim <= usize::MAX && kv_heads * head_dim <= usize::MAX
            &&& has_shaped(model, layer.input_norm@, seq![hidden])
            &&& has_shaped(model, layer.query_weight@, seq![query, hidden])
            &&& has_shaped(model, layer.key_weight@, seq![kv, hidden])
            &&& has_shaped(model, layer.value_weight@, seq![kv, hidden])
            &&& has_shaped(model, layer.output_weight@, seq![hidden, query])
            &&& has_shaped(model, layer.post_attention_norm@, seq![hidden])
            &&& has_shaped(model, layer.gate_weight@, seq![intermediate, hidden])
            &&& has_shaped(model, layer.up_weight@, seq![intermediate, hidden])
            &&& has_shaped(model, layer.down_weight@, seq![hidden, intermediate])
            &&& layer.query_norm matches Some(name) ==> has_shaped(model, name@, seq![head_dim])
            &&& layer.key_norm matches Some(name) ==> has_shaped(model, name@, seq![head_dim])
            &&& layer.query_bias matches Some(name) ==> has_shaped(model, name@, seq![query])
            &&& layer.key_bias matches Some(name) ==> has_shaped(model, name@, seq![kv])
            &&& layer.value_bias matches Some(name) ==> has_shaped(model, name@, seq![kv])
        }),
{
    let plan = definition.dense_decoder->0;
    let layer = plan.weights.layers@[i];
    let h = plan.hidden_size;
    let q = (heads * head_dim) as usize;
    let kv = (kv_heads * head_dim) as usize;
    let model = artifacts@;
    let sizes = crate::model_definition::dense_sizes(definition.execution);
    let n = plan.weights.layers@.len();
    let tensors = dense_layer_tensors(plan, sizes, n);
    lemma_layers_in_order(plan, sizes, n, i);
    lemma_met_among(model, tensors, layer.input_norm@, seq![h]);
    lemma_met_among(model, tensors, layer.query_weight@, seq![q, h]);
    lemma_met_among(model, tensors, layer.key_weight@, seq![kv, h]);
    lemma_met_among(model, tensors, layer.value_weight@, seq![kv, h]);
    lemma_met_among(model, tensors, layer.output_weight@, seq![h, q]);
    lemma_met_among(model, tensors, layer.post_attention_norm@, seq![h]);
    lemma_met_among(model, tensors, layer.gate_weight@, seq![intermediate, h]);
    lemma_met_among(model, tensors, layer.up_weight@, seq![intermediate, h]);
    lemma_met_among(model, tensors, layer.down_weight@, seq![h, intermediate]);
    if let Some(name) = layer.query_norm {
        lemma_met_among(model, tensors, name@, seq![head_dim]);
    }
    if let Some(name) = layer.key_norm {
        lemma_met_among(model, tensors, name@, seq![head_dim]);
    }
    if let Some(name) = layer.query_bias {
        lemma_met_among(model, tensors, name@, seq![q]);
    }
    if let Some(name) = layer.key_bias {
        lemma_met_among(model, tensors, name@, seq![kv]);
    }
    if let Some(name) = layer.value_bias {
        lemma_met_among(model, tensors, name@, seq![kv]);
    }
}

} // verus!
