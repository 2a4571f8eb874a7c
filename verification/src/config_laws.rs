//! What the configuration of a model promises: how it is read, which model it chooses, and which
//! configurations a model takes.
use vstd::prelude::*;

use crate::answer_laws::holds_text;
use crate::artifact_error::ModelArtifactError;
use crate::deepseek::{check_choice, parse_activation, query_config, MlaMoeConfig};
use crate::decoder_plans::{MultiLatentQueryConfig, RouterActivation};
use crate::dense_laws::{defines_dense, head_width, key_heads};
use crate::hybrid_laws::defined_by;
use crate::json::{Json, JsonNumber, JsonView};
use crate::kimi_linear::KimiLinearConfig;
use crate::model_config::{texts_among, HfModelConfig};
use crate::model_definition::ModelDefinition;
use crate::model_registry::{
    adapter_for, adapter_from, known_models_are_found, AdapterConfig, ModelAdapter, ModelRegistry,
    ModelRegistryError, ResolvedModelAdapter,
};
use crate::models::ModelAdapterError;
use crate::payload_laws::items_are_read_in_order;
use crate::qwen::QwenDenseConfig;
use crate::qwen3_5::{Qwen3_5TextConfig, RotaryWidth};
use crate::scoring_laws::lists_tokens;

verus! {

/// Each model is chosen by the name of its architecture.
pub proof fn models_are_chosen_by_their_architecture()
    ensures
        adapter_from("DeepseekV3ForCausalLM"@, 0) == Some(ModelAdapter::DeepSeekV3),
        adapter_from("DeepseekV4ForCausalLM"@, 0) == Some(ModelAdapter::DeepSeekV4),
        adapter_from("GlmMoeDsaForCausalLM"@, 0) == Some(ModelAdapter::GlmMoeDsa),
        adapter_from("Qwen2ForCausalLM"@, 0) == Some(ModelAdapter::Qwen2),
        adapter_from("Qwen3ForCausalLM"@, 0) == Some(ModelAdapter::Qwen3),
        adapter_from("Qwen3_5ForConditionalGeneration"@, 0) == Some(ModelAdapter::Qwen3_5),
        adapter_from("KimiLinearForCausalLM"@, 0) == Some(ModelAdapter::KimiLinear),
{
    known_models_are_found(ModelAdapter::DeepSeekV3);
    known_models_are_found(ModelAdapter::DeepSeekV4);
    known_models_are_found(ModelAdapter::GlmMoeDsa);
    known_models_are_found(ModelAdapter::Qwen2);
    known_models_are_found(ModelAdapter::Qwen3);
    known_models_are_found(ModelAdapter::Qwen3_5);
    known_models_are_found(ModelAdapter::KimiLinear);
}

/// A name that is found is the name of what is found.
pub proof fn lemma_found(name: Seq<char>, i: nat)
    ensures
        adapter_from(name, i) matches Some(adapter) ==> adapter.name() == name,
    decreases 7 - i,
{
    if i < 7 {
        lemma_found(name, i + 1);
    }
}

/// What is chosen is named by the configuration.
pub proof fn lemma_chosen(names: Seq<Seq<char>>, i: nat)
    ensures
        adapter_for(names, i) matches Some(adapter) ==> names.contains(adapter.name()),
        adapter_for(names, i) is None ==> forall|k: int|
            i <= k < names.len() ==> adapter_from(#[trigger] names[k], 0) is None,
    decreases names.len() - i,
{
    if i < names.len() {
        lemma_found(names[i as int], 0);
        lemma_chosen(names, i + 1);
        assert(names.contains(names[i as int]));
    }
}

/// A model is resolved to an architecture that its configuration names, wherever one of the names is
/// known.
pub proof fn models_are_resolved_by_a_name_of_theirs(
    registry: ModelRegistry,
    path: &str,
    config: HfModelConfig,
    resolved: Result<ResolvedModelAdapter, ModelRegistryError>,
    k: int,
)
    requires
        call_ensures(ModelRegistry::resolve, (registry, path, &config), resolved),
    ensures
        resolved matches Ok(r) ==> config@.architectures.contains(r.adapter.name()),
        0 <= k < config@.architectures.len() && adapter_from(config@.architectures[k], 0) is Some
            ==> resolved is Ok,
{
    lemma_chosen(config@.architectures, 0);
}

/// The texts among some items, one by one.
pub proof fn lemma_texts(items: Seq<JsonView>)
    requires
        forall|i: int| 0 <= i < items.len() ==> #[trigger] items[i] is Text,
    ensures
        texts_among(items).len() == items.len(),
        forall|i: int|
            0 <= i < items.len() ==> #[trigger] items[i] == JsonView::Text(texts_among(items)[i]),
    decreases items.len(),
{
    if items.len() > 0 {
        let front = items.drop_last();
        assert forall|i: int| 0 <= i < front.len() implies #[trigger] front[i] is Text by {
            assert(front[i] == items[i]);
        }
        lemma_texts(front);
        let list = texts_among(items);
        assert(items.last() == items[items.len() - 1]);
        assert forall|i: int| 0 <= i < items.len() implies #[trigger] items[i] == JsonView::Text(
            list[i],
        ) by {
            if i < front.len() {
                assert(front[i] == items[i]);
                assert(list[i] == texts_among(front)[i]);
            }
        }
    }
}

/// A configuration tells its type and its architectures as they are written.
pub proof fn configurations_tell_their_architectures(
    document: Json,
    path: &str,
    config: HfModelConfig,
)
    requires
        call_ensures(
            HfModelConfig::from_document,
            (document, path),
            Ok::<HfModelConfig, ModelArtifactError>(config),
        ),
    ensures
        config@.document == document@,
        config@.model_type matches Some(name) ==> holds_text(document@, "model_type"@, name),
        document@.get("model_type"@) matches Some(JsonView::Text(name)) ==> config@.model_type
            == Some(name),
        document@.get("architectures"@) is None ==> config@.architectures.len() == 0,
        document@.get("architectures"@) matches Some(JsonView::Array(items)) ==> (forall|i: int|
            0 <= i < items.len() ==> #[trigger] items[i] is Text) ==> config@.architectures.len()
            == items.len() && forall|i: int|
            0 <= i < items.len() ==> #[trigger] items[i] == JsonView::Text(
                config@.architectures[i],
            ),
{
    if let Some(JsonView::Array(items)) = document@.get("architectures"@) {
        if forall|i: int| 0 <= i < items.len() ==> #[trigger] items[i] is Text {
            lemma_texts(items);
        }
    }
}

/// The tokens that end a text are those of the text configuration where there is one, else those of
/// the whole: one token, or a list of them in order.
pub proof fn ending_tokens_are_those_of_the_text(
    document: Json,
    path: &str,
    config: HfModelConfig,
    part: JsonView,
)
    requires
        call_ensures(
            HfModelConfig::from_document,
            (document, path),
            Ok::<HfModelConfig, ModelArtifactError>(config),
        ),
        part == (match document@.get("text_config"@) {
            Some(JsonView::Object(members)) => JsonView::Object(members),
            _ => document@,
        }),
    ensures
        part.get("eos_token_id"@) is None ==> config@.eos_token_ids.len() == 0,
        part.get("eos_token_id"@) matches Some(JsonView::Number(number))
            ==> config@.eos_token_ids.len() == 1 && number == JsonNumber::Unsigned(
            config@.eos_token_ids[0] as u64,
        ),
        part.get("eos_token_id"@) matches Some(JsonView::Array(items)) ==> lists_tokens(
            items,
            config@.eos_token_ids,
        ),
{
    if let Some(JsonView::Array(items)) = part.get("eos_token_id"@) {
        let read = |item: JsonView| crate::model_config::token_id(item, "eos_token_id"@);
        items_are_read_in_order(items, read);
        let list = crate::payload::collected(items, read)->Ok_0;
        assert(config@.eos_token_ids == list);
        assert forall|i: int| 0 <= i < items.len() implies #[trigger] items[i] == JsonView::Number(
            JsonNumber::Unsigned(list[i] as u64),
        ) by {
            assert(read(items[i]) == Ok::<u32, Seq<char>>(list[i]));
        }
    }
}

/// A size is given and is not zero.
pub open spec fn has_size(size: Option<usize>) -> bool {
    size is Some && size->0 > 0
}

/// A description of rotary embeddings is the usual one.
pub open spec fn usual_rotation(parameters: Option<Json>) -> bool {
    parameters matches Some(described) ==> {
        &&& described@ is Object
        &&& described@.get("rope_type"@) matches Some(JsonView::Text(name)) ==> name == "default"@
    }
}

/// A dense model is defined only where its sizes are given, where its heads share the keys evenly,
/// where its heads are even, and where it asks for nothing that is not implemented.
pub proof fn dense_models_ask_for_what_is_implemented(
    definition: ModelDefinition,
    hf_config: HfModelConfig,
    config: QwenDenseConfig,
)
    requires
        defines_dense(Ok(definition), hf_config, config),
    ensures
        has_size(config.vocab_size) && has_size(config.num_hidden_layers),
        has_size(config.hidden_size) && has_size(config.intermediate_size),
        has_size(config.num_attention_heads),
        key_heads(config) > 0 && config.num_attention_heads->0 as int % key_heads(config) == 0,
        head_width(config) % 2 == 0,
        config.hidden_act is Some && config.hidden_act->0@ == "silu"@,
        config.use_sliding_window != Some(true),
        config.rope_scaling is Some ==> usual_rotation(config.rope_scaling),
        config.rope_scaling is None ==> usual_rotation(config.rope_parameters),
        config.rms_norm_eps is Some,
        config.max_position_embeddings != Some(0usize),
        config.rope_theta matches Some(theta) ==> 0 < theta.narrow < 0x7f80_0000,
{
}

/// A Qwen3.5 model is defined only where its sizes are given, where its heads share the keys evenly,
/// and where it asks for nothing that is not implemented.
#[verifier::rlimit(40)]
pub proof fn qwen3_5_models_ask_for_what_is_implemented(
    definition: ModelDefinition,
    hf_config: HfModelConfig,
    c: Qwen3_5TextConfig,
    width: RotaryWidth,
    rotary: Result<(), String>,
)
    requires
        defined_by(definition, hf_config, AdapterConfig::Qwen3_5 { config: Ok(c), width, rotary }),
    ensures
        c.model_type is Some && c.model_type->0@ == "qwen3_5_text"@,
        c.attention_bias != Some(true),
        c.hidden_act is Some && c.hidden_act->0@ == "silu"@,
        c.output_gate_type matches Some(name) ==> name@ == "silu"@ || name@ == "swish"@,
        c.mamba_ssm_dtype matches Some(name) ==> name@ == "float32"@,
        has_size(c.vocab_size) && has_size(c.num_hidden_layers) && has_size(c.hidden_size),
        has_size(c.intermediate_size) && has_size(c.num_attention_heads),
        has_size(c.num_key_value_heads) && has_size(c.head_dim),
        has_size(c.linear_conv_kernel_dim) && has_size(c.linear_key_head_dim),
        has_size(c.linear_value_head_dim) && has_size(c.linear_num_key_heads),
        has_size(c.linear_num_value_heads),
        c.num_attention_heads->0 % c.num_key_value_heads->0 == 0,
        c.linear_num_value_heads->0 % c.linear_num_key_heads->0 == 0,
        has_size(width.dim) && width.dim->0 % 2 == 0,
        rotary is Ok,
        c.max_position_embeddings != Some(0usize),
{
}

/// A model with latent attention and experts is defined only where its sizes are given and its
/// experts can be chosen.
#[verifier::rlimit(40)]
pub proof fn deepseek_models_ask_for_what_is_implemented(
    definition: ModelDefinition,
    hf_config: HfModelConfig,
    c: MlaMoeConfig,
)
    requires
        defined_by(definition, hf_config, AdapterConfig::MlaMoe(Ok(c))),
        adapter_for(hf_config@.architectures, 0) == Some(ModelAdapter::DeepSeekV3),
    ensures
        c.hidden_act is Some && c.hidden_act->0@ == "silu"@,
        c.attention_bias != Some(true),
        c.rope_scaling matches Some(described) ==> described@ is Null,
        c.quantization_config matches Some(described) ==> described@ is Null,
        has_size(c.vocab_size) && has_size(c.hidden_size) && has_size(c.intermediate_size),
        has_size(c.num_hidden_layers) && has_size(c.num_attention_heads),
        c.q_lora_rank != Some(0usize) && has_size(c.kv_lora_rank),
        has_size(c.qk_nope_head_dim) && has_size(c.qk_rope_head_dim) && has_size(c.v_head_dim),
        has_size(c.n_routed_experts) && has_size(c.num_experts_per_tok),
        has_size(c.moe_intermediate_size) && has_size(c.n_group) && has_size(c.topk_group),
        c.num_experts_per_tok->0 <= c.n_routed_experts->0,
        c.n_routed_experts->0 % c.n_group->0 == 0,
        c.topk_group->0 <= c.n_group->0,
        c.first_k_dense_replace matches Some(n) ==> n <= c.num_hidden_layers->0,
        c.scoring_func is Some && (c.scoring_func->0@ == "sigmoid"@ || c.scoring_func->0@
            == "softmax"@),
        c.topk_method is Some && (c.topk_method->0@ == "noaux_tc"@ || c.topk_method->0@
            == "greedy"@ || c.topk_method->0@ == "group_limited_greedy"@),
        c.norm_topk_prob is Some,
{
}

/// A Kimi model is defined only where its sizes are given, its experts can be chosen, and every head
/// has its own keys.
#[verifier::rlimit(40)]
pub proof fn kimi_models_ask_for_what_is_implemented(
    definition: ModelDefinition,
    hf_config: HfModelConfig,
    c: KimiLinearConfig,
    rotary: Result<(), String>,
)
    requires
        defined_by(definition, hf_config, AdapterConfig::KimiLinear { config: Ok(c), rotary }),
    ensures
        c.model_type is Some && c.model_type->0@ == "kimi_linear"@,
        c.hidden_act is Some && c.hidden_act->0@ == "silu"@,
        c.mla_use_nope == Some(true),
        c.num_nextn_predict_layers matches Some(n) ==> n == 0,
        has_size(c.vocab_size) && has_size(c.hidden_size) && has_size(c.intermediate_size),
        has_size(c.num_hidden_layers) && has_size(c.num_attention_heads),
        c.num_key_value_heads matches Some(n) ==> n == c.num_attention_heads->0,
        c.q_lora_rank != Some(0usize) && has_size(c.kv_lora_rank),
        has_size(c.qk_nope_head_dim) && has_size(c.qk_rope_head_dim) && has_size(c.v_head_dim),
        has_size(c.num_experts) && has_size(c.num_experts_per_token),
        c.num_experts_per_token->0 <= c.num_experts->0,
        has_size(c.num_expert_group) && has_size(c.topk_group),
        c.num_experts->0 % c.num_expert_group->0 == 0,
        c.topk_group->0 <= c.num_expert_group->0,
        c.use_grouped_topk == Some(false) ==> c.num_expert_group->0 == 1 && c.topk_group->0 == 1,
        c.moe_router_activation_func is Some && (c.moe_router_activation_func->0@ == "sigmoid"@
            || c.moe_router_activation_func->0@ == "softmax"@),
        rotary is Ok,
{
}

/// A router activates as it is named.
pub proof fn routers_activate_as_they_are_named(name: &str, activation: Option<RouterActivation>)
    requires
        call_ensures(parse_activation, (name,), activation),
    ensures
        name@ == "sigmoid"@ ==> activation == Some(RouterActivation::Sigmoid),
        name@ == "softmax"@ ==> activation == Some(RouterActivation::Softmax),
        name@ != "sigmoid"@ && name@ != "softmax"@ ==> activation is None,
{
    reveal_strlit("sigmoid");
    reveal_strlit("softmax");
    assert("sigmoid"@[1] == 'i' && "softmax"@[1] == 'o');
}

/// Queries go through the rank that is given, and directly where none is.
pub proof fn queries_go_through_their_rank(
    architecture: &str,
    rank: Option<usize>,
    query: Result<MultiLatentQueryConfig, ModelAdapterError>,
)
    requires
        call_ensures(query_config, (architecture, rank), query),
    ensures
        query is Ok <==> rank != Some(0usize),
        query is Ok && rank is None ==> query->Ok_0 is Direct,
        query is Ok ==> (rank matches Some(n) ==> query->Ok_0 == (MultiLatentQueryConfig::LowRank {
            rank: n,
        })),
{
}

/// No more experts are chosen than there are.
pub proof fn no_more_experts_are_chosen_than_there_are(
    architecture: &str,
    chosen: usize,
    routed: usize,
    valid: Result<(), ModelAdapterError>,
)
    requires
        call_ensures(check_choice, (architecture, chosen, routed), valid),
    ensures
        valid is Ok <==> chosen <= routed,
{
}

} // verus!
