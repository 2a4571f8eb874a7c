use sglang_srt::checkpoint::CheckpointTensorRequirement;
use sglang_srt::decoder_plans::{
    HybridDecoderLayerKind, HybridFeedForward, HybridFullAttentionConfig, MultiLatentQueryConfig,
    MultiLatentQueryWeightNames,
};
use sglang_srt::deepseek::{build_kimi_k25_definition, KimiK25Config, MlaMoeConfig};
use sglang_srt::json::Json;
use sglang_srt::json_text::parse_json;
use sglang_srt::kimi_linear::{
    build_kimi_linear_definition, KimiLinearAttentionConfig, KimiLinearConfig,
};
use sglang_srt::kv_cache::KvCacheDtype;
use sglang_srt::model_config::HfModelConfig;
use sglang_srt::model_definition::ModelDefinition;
use sglang_srt::model_registry::{AdapterConfig, ModelRegistry, ModelRegistryError};
use sglang_srt::model_runtime::{
    check_execution_dtype, validate_runtime_support, BackendOffer, DtypeNames,
    ModelRuntimeLoadError,
};
use sglang_srt::models::{
    AttentionArchitecture, ConfigNumber, FeedForwardArchitecture, ModelCacheArchitecture,
    ModelExecutionArchitecture, RuntimeDtype,
};
use sglang_srt::qwen::QwenDenseConfig;
use sglang_srt::qwen3_5::{Qwen3_5TextConfig, RotaryWidth};

fn number(value: f64) -> Option<ConfigNumber> {
    Some(ConfigNumber {
        wide: value.to_bits(),
        narrow: (value as f32).to_bits(),
    })
}

fn hf(model_type: &str, architectures: &[&str]) -> HfModelConfig {
    let names = architectures
        .iter()
        .map(|name| Json::text(name))
        .collect::<Vec<_>>();
    HfModelConfig::from_json_value(
        Json::object()
            .with("model_type", Json::text(model_type))
            .with("architectures", Json::array(names)),
    )
    .expect("config")
}

fn empty_mla_moe() -> MlaMoeConfig {
    MlaMoeConfig {
        vocab_size: None,
        max_position_embeddings: None,
        num_hidden_layers: None,
        hidden_size: None,
        intermediate_size: None,
        num_attention_heads: None,
        q_lora_rank: None,
        kv_lora_rank: None,
        qk_nope_head_dim: None,
        qk_rope_head_dim: None,
        v_head_dim: None,
        n_routed_experts: None,
        n_shared_experts: None,
        num_experts_per_tok: None,
        moe_intermediate_size: None,
        first_k_dense_replace: None,
        moe_layer_freq: None,
        hc_mult: None,
        n_group: None,
        topk_group: None,
        norm_topk_prob: None,
        routed_scaling_factor: None,
        scoring_func: None,
        topk_method: None,
        rms_norm_eps: None,
        rope_theta: None,
        rope_scaling: None,
        hidden_act: None,
        tie_word_embeddings: None,
        attention_bias: None,
        num_nextn_predict_layers: None,
        quantization_config: None,
    }
}

fn mla_moe() -> MlaMoeConfig {
    MlaMoeConfig {
        vocab_size: Some(32_000),
        max_position_embeddings: Some(32_768),
        num_hidden_layers: Some(4),
        hidden_size: Some(1024),
        num_attention_heads: Some(16),
        qk_nope_head_dim: Some(128),
        qk_rope_head_dim: Some(64),
        v_head_dim: Some(128),
        n_routed_experts: Some(32),
        n_shared_experts: Some(1),
        num_experts_per_tok: Some(4),
        moe_intermediate_size: Some(256),
        hc_mult: Some(1),
        ..empty_mla_moe()
    }
}

fn kimi_k2() -> MlaMoeConfig {
    MlaMoeConfig {
        vocab_size: Some(3),
        max_position_embeddings: Some(32),
        num_hidden_layers: Some(2),
        hidden_size: Some(2),
        intermediate_size: Some(2),
        num_attention_heads: Some(1),
        hidden_act: Some("silu".to_string()),
        rms_norm_eps: number(1e-5),
        rope_theta: number(10_000.0),
        rope_scaling: None,
        attention_bias: Some(false),
        tie_word_embeddings: Some(false),
        q_lora_rank: Some(2),
        kv_lora_rank: Some(2),
        qk_nope_head_dim: Some(1),
        qk_rope_head_dim: Some(2),
        v_head_dim: Some(2),
        moe_intermediate_size: Some(2),
        n_routed_experts: Some(1),
        n_shared_experts: Some(1),
        num_experts_per_tok: Some(1),
        routed_scaling_factor: number(1.0),
        first_k_dense_replace: Some(1),
        moe_layer_freq: Some(1),
        n_group: Some(1),
        topk_group: Some(1),
        norm_topk_prob: Some(true),
        scoring_func: Some("sigmoid".to_string()),
        topk_method: Some("noaux_tc".to_string()),
        num_nextn_predict_layers: Some(0),
        quantization_config: None,
        ..empty_mla_moe()
    }
}

fn empty_qwen() -> QwenDenseConfig {
    QwenDenseConfig {
        vocab_size: None,
        max_position_embeddings: None,
        num_hidden_layers: None,
        hidden_size: None,
        intermediate_size: None,
        num_attention_heads: None,
        original_num_attention_heads: None,
        num_key_value_heads: None,
        head_dim: None,
        hidden_act: None,
        attention_bias: None,
        rms_norm_eps: None,
        rope_theta: None,
        rope_scaling: None,
        rope_parameters: None,
        rope_parameters_theta: None,
        use_sliding_window: None,
        sliding_window: None,
        tie_word_embeddings: None,
    }
}

fn qwen2() -> QwenDenseConfig {
    QwenDenseConfig {
        vocab_size: Some(32_000),
        max_position_embeddings: Some(32_768),
        num_hidden_layers: Some(4),
        hidden_size: Some(1024),
        intermediate_size: Some(4096),
        num_attention_heads: Some(16),
        num_key_value_heads: Some(4),
        hidden_act: Some("silu".to_string()),
        rms_norm_eps: number(1e-6),
        rope_theta: number(1_000_000.0),
        tie_word_embeddings: Some(false),
        ..empty_qwen()
    }
}

fn qwen3() -> QwenDenseConfig {
    QwenDenseConfig {
        vocab_size: Some(151_936),
        max_position_embeddings: Some(40_960),
        num_hidden_layers: Some(28),
        hidden_size: Some(1024),
        intermediate_size: Some(3072),
        num_attention_heads: Some(16),
        num_key_value_heads: Some(8),
        head_dim: Some(128),
        hidden_act: Some("silu".to_string()),
        attention_bias: Some(false),
        rms_norm_eps: number(1e-6),
        rope_theta: number(1_000_000.0),
        tie_word_embeddings: Some(true),
        ..empty_qwen()
    }
}

fn qwen3_5() -> AdapterConfig {
    AdapterConfig::Qwen3_5 {
        config: Ok(qwen3_5_text()),
        width: RotaryWidth {
            dim: Some(64),
            factor: "0.25".to_string(),
        },
        rotary: Ok(()),
    }
}

fn qwen3_5_text() -> Qwen3_5TextConfig {
    Qwen3_5TextConfig {
        model_type: Some("qwen3_5_text".to_string()),
        vocab_size: Some(248_320),
        max_position_embeddings: Some(262_144),
        num_hidden_layers: Some(4),
        hidden_size: Some(1024),
        intermediate_size: Some(3584),
        num_attention_heads: Some(8),
        num_key_value_heads: Some(2),
        head_dim: Some(256),
        hidden_act: Some("silu".to_string()),
        attention_bias: Some(false),
        rms_norm_eps: number(1e-6),
        rope_theta: number(10_000_000.0),
        rope_scaling: None,
        rope_parameters: None,
        rope_parameters_theta: None,
        partial_rotary_factor: number(0.25),
        rope_parameters_factor: None,
        tie_word_embeddings: Some(true),
        layer_types: vec![
            "linear_attention".to_string(),
            "linear_attention".to_string(),
            "linear_attention".to_string(),
            "full_attention".to_string(),
        ],
        full_attention_interval: None,
        attn_output_gate: Some(true),
        linear_conv_kernel_dim: Some(4),
        linear_key_head_dim: Some(128),
        linear_value_head_dim: Some(128),
        linear_num_key_heads: Some(16),
        linear_num_value_heads: Some(16),
        output_gate_type: None,
        mamba_ssm_dtype: Some("float32".to_string()),
    }
}

fn kimi_linear() -> KimiLinearConfig {
    KimiLinearConfig {
        model_type: Some("kimi_linear".to_string()),
        vocab_size: Some(3),
        model_max_length: Some(32),
        num_hidden_layers: Some(2),
        hidden_size: Some(2),
        intermediate_size: Some(2),
        num_attention_heads: Some(1),
        num_key_value_heads: Some(1),
        hidden_act: Some("silu".to_string()),
        rms_norm_eps: number(1e-5),
        rope_theta: number(10_000.0),
        rope_scaling: None,
        tie_word_embeddings: Some(false),
        kv_lora_rank: Some(2),
        q_lora_rank: None,
        qk_nope_head_dim: Some(2),
        qk_rope_head_dim: Some(2),
        v_head_dim: Some(2),
        mla_use_nope: Some(true),
        moe_intermediate_size: Some(2),
        moe_renormalize: Some(true),
        moe_router_activation_func: Some("sigmoid".to_string()),
        num_experts: Some(1),
        num_experts_per_token: Some(1),
        num_shared_experts: Some(1),
        routed_scaling_factor: number(1.0),
        first_k_dense_replace: Some(1),
        moe_layer_freq: Some(1),
        use_grouped_topk: Some(true),
        num_expert_group: Some(1),
        topk_group: Some(1),
        num_nextn_predict_layers: Some(0),
        linear_attn_config: Some(KimiLinearAttentionConfig {
            head_dim: Some(2),
            num_heads: Some(1),
            short_conv_kernel_size: Some(2),
            kda_layers: Some(vec![1]),
            full_attn_layers: Some(vec![2]),
        }),
    }
}

fn kimi_adapter(config: KimiLinearConfig) -> AdapterConfig {
    AdapterConfig::KimiLinear {
        config: Ok(config),
        rotary: Ok(()),
    }
}

fn define(path: &str, architecture: &str, model_type: &str, config: AdapterConfig) -> ModelDefinition {
    ModelRegistry
        .definition(path, &hf(model_type, &[architecture]), config)
        .expect("definition")
}

fn dtype_names() -> DtypeNames {
    DtypeNames {
        full: "float32".to_string(),
        half: "float16".to_string(),
        brain: "bfloat16".to_string(),
    }
}

fn cpu_offer(missing: &[&str]) -> BackendOffer {
    BackendOffer {
        name: "cpu".to_string(),
        supported_dtypes: vec![RuntimeDtype::F32, RuntimeDtype::Bf16],
        missing_components: missing.iter().map(|item| item.to_string()).collect(),
    }
}

#[test]
fn glm_and_deepseek_share_mla_moe_execution_components() {
    let glm = define(
        "/models/glm",
        "GlmMoeDsaForCausalLM",
        "glm_moe_dsa",
        AdapterConfig::MlaMoe(Ok(mla_moe())),
    );
    let deepseek = define(
        "/models/deepseek",
        "DeepseekV4ForCausalLM",
        "deepseek_v4",
        AdapterConfig::MlaMoe(Ok(mla_moe())),
    );

    assert_eq!(glm.execution(), deepseek.execution());
    assert_eq!(glm.kv_cache_layout(), deepseek.kv_cache_layout());
    assert!(matches!(
        glm.execution(),
        ModelExecutionArchitecture::Transformer {
            attention: AttentionArchitecture::MultiLatent { .. },
            feed_forward: FeedForwardArchitecture::MixtureOfExperts { .. },
        }
    ));
    glm.validate_tensor_parallel(8)
        .expect("shared MLA definition should validate TP");
    deepseek
        .validate_tensor_parallel(8)
        .expect("shared MLA definition should validate TP");
}

#[test]
fn kimi_k2_model_type_routes_to_the_shared_deepseek_v3_mla_moe_plan() {
    let deepseek = define(
        "/models/kimi-k2-unquantized",
        "DeepseekV3ForCausalLM",
        "kimi_k2",
        AdapterConfig::MlaMoe(Ok(kimi_k2())),
    );
    let glm = define(
        "/models/glm",
        "GlmMoeDsaForCausalLM",
        "glm_moe_dsa",
        AdapterConfig::MlaMoe(Ok(mla_moe())),
    );

    assert_eq!(deepseek.architecture(), "DeepseekV3ForCausalLM");
    assert_eq!(
        deepseek.execution().attention_family(),
        glm.execution().attention_family()
    );
    assert_eq!(
        deepseek.execution().feed_forward_family(),
        glm.execution().feed_forward_family()
    );
    assert_eq!(deepseek.cache_architecture(), ModelCacheArchitecture::PagedKv);
    assert!(deepseek.recurrent_state_layout().is_none());
    let layout = deepseek.kv_cache_layout().expect("DeepSeek V3 KV layout");
    assert_eq!(layout.num_layers, 2);
    assert_eq!(
        layout
            .tensor_pair_size_bytes(KvCacheDtype::Float32)
            .expect("DeepSeek V3 tensor-pair geometry"),
        Some([16, 8])
    );
    let plan = deepseek.hybrid_decoder().expect("shared component plan");
    assert!(plan.linear_attention.is_none());
    assert!(plan.weights.layers.iter().all(|layer| matches!(
        layer.mixer,
        HybridDecoderLayerKind::MultiLatentAttention { .. }
    )));
    assert!(matches!(
        plan.weights.layers[0].feed_forward,
        HybridFeedForward::Dense { .. }
    ));
    assert!(matches!(
        plan.weights.layers[1].feed_forward,
        HybridFeedForward::MixtureOfExperts { .. }
    ));
    validate_runtime_support(&deepseek, &cpu_offer(&[]), &dtype_names(), 1)
        .expect("CPU reference backend should execute the shared pure MLA/MoE plan");
}

#[test]
fn deepseek_v3_quantized_checkpoint_fails_during_adapter_loading() {
    let config = MlaMoeConfig {
        quantization_config: Some(Json::object().with("quant_method", Json::text("fp8"))),
        ..kimi_k2()
    };
    let error = ModelRegistry
        .definition(
            "/models/kimi-k2-fp8",
            &hf("kimi_k2", &["DeepseekV3ForCausalLM"]),
            AdapterConfig::MlaMoe(Ok(config)),
        )
        .expect_err("unsupported quantization must fail before backend initialization");

    assert!(matches!(
        error,
        ModelRegistryError::InvalidAdapterConfig { ref message, .. }
            if message.contains("quantized DeepSeek/Kimi checkpoints are not implemented")
    ));
}

#[test]
fn qwen_uses_the_same_definition_boundary_for_dense_decoder_components() {
    let qwen = define(
        "/models/qwen",
        "Qwen2ForCausalLM",
        "qwen2",
        AdapterConfig::QwenDense(Ok(qwen2())),
    );

    assert!(matches!(
        qwen.execution(),
        ModelExecutionArchitecture::Transformer {
            attention: AttentionArchitecture::MultiHead { .. },
            feed_forward: FeedForwardArchitecture::Dense { .. },
        }
    ));
    assert_eq!(qwen.kv_cache_layout().expect("Qwen KV layout").kv_heads, 4);
    qwen.validate_tensor_parallel(4)
        .expect("Qwen attention heads should shard over TP");
    assert!(qwen.validate_tensor_parallel(3).is_err());
}

#[test]
fn qwen2_and_qwen3_share_dense_execution_and_kv_boundaries() {
    let qwen2 = define(
        "/models/qwen2",
        "Qwen2ForCausalLM",
        "qwen2",
        AdapterConfig::QwenDense(Ok(qwen2())),
    );
    let qwen3 = define(
        "/models/qwen3",
        "Qwen3ForCausalLM",
        "qwen3",
        AdapterConfig::QwenDense(Ok(qwen3())),
    );

    assert_eq!(
        qwen2.execution().attention_family(),
        qwen3.execution().attention_family()
    );
    assert_eq!(
        qwen2.execution().feed_forward_family(),
        qwen3.execution().feed_forward_family()
    );
    assert_eq!(
        qwen3.kv_cache_layout().expect("Qwen3 KV layout").kv_heads,
        8
    );
    qwen3
        .validate_tensor_parallel(8)
        .expect("Qwen3 attention heads should shard over TP");
}

#[test]
fn qwen3_5_uses_shared_hybrid_execution_without_changing_qwen3_dense_boundary() {
    let qwen3 = define(
        "/models/qwen3",
        "Qwen3ForCausalLM",
        "qwen3",
        AdapterConfig::QwenDense(Ok(qwen3())),
    );
    let qwen3_5 = define(
        "/models/qwen3.5",
        "Qwen3_5ForConditionalGeneration",
        "qwen3_5",
        qwen3_5(),
    );

    assert!(matches!(
        qwen3.execution(),
        ModelExecutionArchitecture::Transformer {
            attention: AttentionArchitecture::MultiHead { .. },
            feed_forward: FeedForwardArchitecture::Dense { .. },
        }
    ));
    assert!(matches!(
        qwen3_5.execution(),
        ModelExecutionArchitecture::Transformer {
            attention: AttentionArchitecture::Hybrid { .. },
            feed_forward: FeedForwardArchitecture::Dense { .. },
        }
    ));
    assert_eq!(
        qwen3_5.cache_architecture(),
        ModelCacheArchitecture::HybridState {
            full_attention_layer_count: 1,
            recurrent_state_layer_count: 3,
        }
    );
    let recurrent = qwen3_5
        .recurrent_state_layout()
        .expect("Qwen3.5 recurrent-state layout");
    assert_eq!(recurrent.layer_count, 3);
    assert_eq!(recurrent.conv_elements_per_layer(), Some(18_432));
    assert_eq!(recurrent.temporal_elements_per_layer(), Some(262_144));
    assert_eq!(recurrent.elements_per_request(), Some(841_728));
    assert_eq!(
        qwen3_5
            .kv_cache_layout()
            .expect("full-attention KV layout")
            .num_layers,
        1
    );
    validate_runtime_support(&qwen3_5, &cpu_offer(&[]), &dtype_names(), 1)
        .expect("CPU reference backend should execute a shared hybrid decoder plan");
    qwen3_5
        .validate_tensor_parallel(8)
        .expect("all hybrid head families should support TP 8");
    assert!(qwen3_5.validate_tensor_parallel(3).is_err());
}

#[test]
fn kimi_and_qwen3_5_use_distinct_components_through_the_shared_hybrid_executor() {
    let kimi = define(
        "/models/kimi-linear",
        "KimiLinearForCausalLM",
        "kimi_linear",
        kimi_adapter(kimi_linear()),
    );
    let qwen3_5 = define(
        "/models/qwen3.5",
        "Qwen3_5ForConditionalGeneration",
        "qwen3_5",
        qwen3_5(),
    );

    assert!(matches!(
        kimi.execution(),
        ModelExecutionArchitecture::Transformer {
            attention: AttentionArchitecture::HybridMultiLatent { .. },
            feed_forward: FeedForwardArchitecture::MixtureOfExperts { .. },
        }
    ));
    assert!(matches!(
        qwen3_5.execution(),
        ModelExecutionArchitecture::Transformer {
            attention: AttentionArchitecture::Hybrid { .. },
            feed_forward: FeedForwardArchitecture::Dense { .. },
        }
    ));
    assert_eq!(
        kimi.cache_architecture(),
        ModelCacheArchitecture::HybridState {
            full_attention_layer_count: 1,
            recurrent_state_layer_count: 1,
        }
    );
    let recurrent = kimi
        .recurrent_state_layout()
        .expect("Kimi recurrent-state layout");
    assert_eq!(recurrent.layer_count, 1);
    assert_eq!(recurrent.conv_elements_per_layer(), Some(6));
    assert_eq!(recurrent.temporal_elements_per_layer(), Some(4));
    assert_eq!(recurrent.elements_per_request(), Some(10));
    let layout = kimi.kv_cache_layout().expect("Kimi MLA KV layout");
    assert_eq!(layout.num_layers, 1);
    assert_eq!(
        layout
            .tensor_pair_size_bytes(KvCacheDtype::Float32)
            .expect("Kimi tensor-pair geometry"),
        Some([16, 8])
    );
    let plan = kimi.hybrid_decoder().expect("shared hybrid plan");
    assert!(matches!(
        plan.weights.layers[0].mixer,
        HybridDecoderLayerKind::KeyGatedDelta { .. }
    ));
    assert!(matches!(
        plan.weights.layers[1].mixer,
        HybridDecoderLayerKind::MultiLatentAttention { .. }
    ));
    assert!(matches!(
        plan.weights.layers[0].feed_forward,
        HybridFeedForward::Dense { .. }
    ));
    assert!(matches!(
        plan.weights.layers[1].feed_forward,
        HybridFeedForward::MixtureOfExperts { .. }
    ));
    validate_runtime_support(&kimi, &cpu_offer(&[]), &dtype_names(), 1)
        .expect("CPU reference backend should execute the shared Kimi component plan");
}

#[test]
fn kimi_query_lora_uses_the_shared_mla_projection_component() {
    let kimi = define(
        "/models/kimi-linear-query-lora",
        "KimiLinearForCausalLM",
        "kimi_linear",
        kimi_adapter(KimiLinearConfig {
            q_lora_rank: Some(2),
            ..kimi_linear()
        }),
    );
    let plan = kimi.hybrid_decoder().expect("shared hybrid plan");

    assert!(matches!(
        plan.full_attention,
        HybridFullAttentionConfig::MultiLatent {
            query: MultiLatentQueryConfig::LowRank { rank: 2 },
            ..
        }
    ));
    assert!(matches!(
        &plan.weights.layers[1].mixer,
        HybridDecoderLayerKind::MultiLatentAttention { weights, .. }
            if matches!(&weights.query, MultiLatentQueryWeightNames::LowRank { .. })
    ));
}

#[test]
fn generic_runtime_preflight_distinguishes_component_families_without_model_branches() {
    let mla = define(
        "/models/glm",
        "GlmMoeDsaForCausalLM",
        "glm_moe_dsa",
        AdapterConfig::MlaMoe(Ok(mla_moe())),
    );
    let dense = define(
        "/models/qwen",
        "Qwen2ForCausalLM",
        "qwen2",
        AdapterConfig::QwenDense(Ok(qwen2())),
    );
    let attention = mla.execution().attention_family().to_string();
    let feed_forward = mla.execution().feed_forward_family().to_string();

    let mla_error = validate_runtime_support(
        &mla,
        &cpu_offer(&[attention.as_str(), feed_forward.as_str()]),
        &dtype_names(),
        1,
    )
    .expect_err("CPU reference backend has no production MLA executor");
    validate_runtime_support(&dense, &cpu_offer(&[]), &dtype_names(), 1)
        .expect("CPU reference backend should execute the shared dense decoder plan");

    assert!(matches!(
        mla_error,
        ModelRuntimeLoadError::MissingCapabilities(ref missing)
            if missing.iter().any(|item| item.contains("multi-latent attention"))
                && missing.iter().any(|item| item.contains("mixture-of-experts"))
    ));
}

#[test]
fn registry_resolves_first_registered_hugging_face_architecture() {
    let config = hf(
        "not-a-registry-key",
        &["UnsupportedForCausalLM", "GlmMoeDsaForCausalLM"],
    );

    let resolved = ModelRegistry
        .resolve("/models/glm", &config)
        .expect("registered architecture should resolve");

    assert_eq!(resolved.architecture(), "GlmMoeDsaForCausalLM");
}

#[test]
fn registry_requires_hugging_face_architectures() {
    let error = ModelRegistry
        .resolve("/models/missing-architecture", &HfModelConfig::default())
        .expect_err("missing architectures must fail before model loading");

    assert!(matches!(
        error,
        ModelRegistryError::MissingArchitectures { .. }
    ));
}

#[test]
fn adapter_typed_config_errors_fail_definition_build() {
    let config = parse_json(
        br#"{
            "architectures": ["Qwen3ForCausalLM"],
            "model_type": "qwen3",
            "num_hidden_layers": "not-an-integer"
        }"#,
    )
    .expect("document");
    let config = HfModelConfig::from_json_value(config)
        .expect("routing config should preserve the raw document");
    let message = "num_hidden_layers: invalid type: string \"not-an-integer\", expected usize";

    let error = ModelRegistry
        .definition(
            "/models/invalid-qwen",
            &config,
            AdapterConfig::QwenDense(Err(message.to_string())),
        )
        .expect_err("typed Qwen config parsing must fail before runtime startup");

    assert!(matches!(
        error,
        ModelRegistryError::InvalidAdapterConfig { .. }
    ));
    assert!(error.to_string().contains("num_hidden_layers"));
}

#[test]
fn registry_reports_truly_unsupported_architectures() {
    let config = hf("", &["SglangEmbeddingLmForCausalLM"]);

    let error = ModelRegistry
        .resolve("/models/unknown", &config)
        .expect_err("unknown architecture must fail at registry resolution");

    assert!(error
        .to_string()
        .starts_with("model /models/unknown architectures [\"SglangEmbeddingLmForCausalLM\"] are unsupported; registered architectures: [\"DeepseekV3ForCausalLM\", "));
    assert!(matches!(
        error,
        ModelRegistryError::UnsupportedArchitectures { requested, .. }
            if requested == ["SglangEmbeddingLmForCausalLM"]
    ));
    assert!(!ModelRegistry
        .supported_architectures()
        .contains(&"SglangEmbeddingLmForCausalLM"));
}

#[test]
fn every_known_architecture_is_found_by_its_name() {
    for name in ModelRegistry.supported_architectures() {
        let resolved = ModelRegistry.resolve("/m", &hf("", &[name])).expect("known");
        assert_eq!(resolved.architecture(), name);
    }
    assert_eq!(ModelRegistry.supported_architectures().len(), 7);
}

fn requirement(definition: &ModelDefinition, name: &str) -> Option<Vec<usize>> {
    definition
        .checkpoint_topology()
        .required_tensors()
        .iter()
        .find(|tensor| tensor.name() == name)
        .and_then(CheckpointTensorRequirement::expected_shape)
        .cloned()
}

#[test]
fn dense_definitions_ask_for_their_weights() {
    let qwen = define(
        "/models/qwen2",
        "Qwen2ForCausalLM",
        "qwen2",
        AdapterConfig::QwenDense(Ok(qwen2())),
    );
    // Three tensors outside the layers, nine and three biases in each of four layers.
    assert_eq!(qwen.checkpoint_topology().required_tensors().len(), 3 + 4 * 12);
    assert_eq!(
        requirement(&qwen, "model.layers.3.self_attn.k_proj.weight"),
        Some(vec![256, 1024])
    );
    assert_eq!(requirement(&qwen, "model.layers.3.self_attn.q_norm.weight"), None);
    let qwen3 = define(
        "/models/qwen3",
        "Qwen3ForCausalLM",
        "qwen3",
        AdapterConfig::QwenDense(Ok(qwen3())),
    );
    assert_eq!(requirement(&qwen3, "lm_head.weight"), None);
    assert_eq!(
        requirement(&qwen3, "model.layers.27.self_attn.q_norm.weight"),
        Some(vec![128])
    );
    assert_eq!(requirement(&qwen3, "model.layers.0.self_attn.q_proj.bias"), None);
}

#[test]
fn latent_definitions_ask_for_their_experts() {
    let deepseek = define(
        "/models/kimi-k2",
        "DeepseekV3ForCausalLM",
        "kimi_k2",
        AdapterConfig::MlaMoe(Ok(kimi_k2())),
    );
    let topology = deepseek.checkpoint_topology();
    assert_eq!(topology.routed_expert_coordinates(), vec![(1, 0)]);
    assert_eq!(topology.routed_expert_weights_per_group(), 3);
    assert_eq!(
        requirement(&deepseek, "model.layers.1.mlp.experts.0.w2.weight"),
        Some(vec![2, 2])
    );
    assert_eq!(
        requirement(&deepseek, "model.layers.0.self_attn.q_b_proj.weight"),
        Some(vec![3, 2])
    );
    let glm = define(
        "/models/glm",
        "GlmMoeDsaForCausalLM",
        "glm_moe_dsa",
        AdapterConfig::MlaMoe(Ok(mla_moe())),
    );
    assert_eq!(glm.checkpoint_topology().routed_expert_coordinates().len(), 4 * 32);
    let deepseek_v4 = define(
        "/models/v4",
        "DeepseekV4ForCausalLM",
        "deepseek_v4",
        AdapterConfig::MlaMoe(Ok(mla_moe())),
    );
    assert_eq!(requirement(&deepseek_v4, "model.hc_head_fn"), Some(vec![1, 1024]));
}

#[test]
fn linear_layers_ask_for_their_weights() {
    let kimi = define(
        "/models/kimi",
        "KimiLinearForCausalLM",
        "kimi_linear",
        kimi_adapter(kimi_linear()),
    );
    assert_eq!(
        requirement(&kimi, "model.layers.0.self_attn.A_log"),
        Some(vec![1, 1, 1, 1])
    );
    assert_eq!(
        requirement(&kimi, "model.layers.1.self_attn.kv_b_proj.weight"),
        Some(vec![4, 2])
    );
    let qwen3_5 = define(
        "/models/qwen3.5",
        "Qwen3_5ForConditionalGeneration",
        "qwen3_5",
        qwen3_5(),
    );
    assert_eq!(
        requirement(&qwen3_5, "model.language_model.layers.0.linear_attn.conv1d.weight"),
        Some(vec![6144, 1, 4])
    );
    assert_eq!(
        requirement(&qwen3_5, "model.language_model.layers.3.self_attn.q_proj.weight"),
        Some(vec![4096, 1024])
    );
}

fn message(config: AdapterConfig, architecture: &str) -> String {
    match ModelRegistry.definition("/m", &hf("", &[architecture]), config) {
        Err(ModelRegistryError::InvalidAdapterConfig { message, .. }) => message,
        _ => panic!("expected an invalid configuration"),
    }
}

#[test]
fn qwen_configurations_are_refused_with_their_reason() {
    let refused = |config: QwenDenseConfig| {
        message(AdapterConfig::QwenDense(Ok(config)), "Qwen2ForCausalLM")
    };
    assert_eq!(
        refused(empty_qwen()),
        "Qwen2ForCausalLM requires config field vocab_size"
    );
    assert_eq!(
        refused(QwenDenseConfig {
            hidden_size: Some(0),
            ..qwen2()
        }),
        "Qwen2ForCausalLM: config field hidden_size must be non-zero"
    );
    assert_eq!(
        refused(QwenDenseConfig {
            num_key_value_heads: Some(3),
            ..qwen2()
        }),
        "Qwen2ForCausalLM: num_attention_heads (16) must be divisible by non-zero num_key_value_heads (3)"
    );
    assert_eq!(
        refused(QwenDenseConfig {
            head_dim: Some(3),
            ..qwen2()
        }),
        "Qwen2ForCausalLM: NeoX RoPE requires an even head_dim, found 3"
    );
    assert_eq!(
        refused(QwenDenseConfig {
            hidden_act: Some("gelu".to_string()),
            ..qwen2()
        }),
        "Qwen2ForCausalLM: unsupported hidden_act gelu; shared dense decoder requires silu"
    );
    assert_eq!(
        refused(QwenDenseConfig {
            use_sliding_window: Some(true),
            sliding_window: Some(4096),
            ..qwen2()
        }),
        "Qwen2ForCausalLM: sliding-window attention is not implemented (sliding_window=Some(4096))"
    );
    assert_eq!(
        refused(QwenDenseConfig {
            rope_scaling: Some(Json::object().with("rope_type", Json::text("yarn"))),
            ..qwen2()
        }),
        "Qwen2ForCausalLM: RoPE variant yarn is not implemented by the dense decoder backend"
    );
    assert_eq!(
        refused(QwenDenseConfig {
            rms_norm_eps: number(-1.0),
            ..qwen2()
        }),
        "Qwen2ForCausalLM: rms_norm_eps must be finite and non-negative"
    );
    assert_eq!(
        refused(QwenDenseConfig {
            rope_theta: number(0.0),
            ..qwen2()
        }),
        "Qwen2ForCausalLM: rope_theta must be finite and positive"
    );
}

#[test]
fn the_default_base_of_the_rotary_embedding_is_a_million() {
    let qwen = define(
        "/m",
        "Qwen2ForCausalLM",
        "qwen2",
        AdapterConfig::QwenDense(Ok(QwenDenseConfig {
            rope_theta: None,
            ..qwen2()
        })),
    );
    let plan = qwen.dense_decoder().expect("plan");
    assert_eq!(f32::from_bits(plan.rope_theta), 1_000_000.0);
    assert_eq!(f32::from_bits(plan.rms_norm_eps), 1e-6);
    let qwen3_5 = define(
        "/m",
        "Qwen3_5ForConditionalGeneration",
        "qwen3_5",
        AdapterConfig::Qwen3_5 {
            config: Ok(Qwen3_5TextConfig {
                rope_theta: None,
                layer_types: Vec::new(),
                full_attention_interval: Some(2),
                ..qwen3_5_text()
            }),
            width: RotaryWidth {
                dim: Some(64),
                factor: "0.25".to_string(),
            },
            rotary: Ok(()),
        },
    );
    let plan = qwen3_5.hybrid_decoder().expect("plan");
    assert_eq!(f32::from_bits(plan.rope_theta), 10_000.0);
    assert_eq!(qwen3_5.kv_cache_layout().expect("layout").num_layers, 2);
}

#[test]
fn deepseek_configurations_are_refused_with_their_reason() {
    let refused = |config: MlaMoeConfig| {
        message(AdapterConfig::MlaMoe(Ok(config)), "DeepseekV3ForCausalLM")
    };
    assert_eq!(
        refused(MlaMoeConfig {
            hidden_act: Some("gelu\n".to_string()),
            ..kimi_k2()
        }),
        "DeepseekV3ForCausalLM: hidden_act must be silu; found Some(\"gelu\\n\")"
    );
    assert_eq!(
        refused(MlaMoeConfig {
            hidden_act: None,
            ..kimi_k2()
        }),
        "DeepseekV3ForCausalLM: hidden_act must be silu; found None"
    );
    assert_eq!(
        refused(MlaMoeConfig {
            q_lora_rank: Some(0),
            ..kimi_k2()
        }),
        "DeepseekV3ForCausalLM: q_lora_rank must be non-zero when present"
    );
    assert_eq!(
        refused(MlaMoeConfig {
            num_experts_per_tok: Some(2),
            ..kimi_k2()
        }),
        "DeepseekV3ForCausalLM: num_experts_per_tok (2) exceeds n_routed_experts (1)"
    );
    assert_eq!(
        refused(MlaMoeConfig {
            scoring_func: Some("relu".to_string()),
            ..kimi_k2()
        }),
        "DeepseekV3ForCausalLM: unsupported scoring_func relu"
    );
    assert_eq!(
        refused(MlaMoeConfig {
            topk_method: None,
            ..kimi_k2()
        }),
        "DeepseekV3ForCausalLM requires config field topk_method"
    );
    assert_eq!(
        refused(MlaMoeConfig {
            routed_scaling_factor: number(1e300),
            ..kimi_k2()
        }),
        "DeepseekV3ForCausalLM: routed_scaling_factor must be a finite positive f32 value"
    );
    assert_eq!(
        refused(MlaMoeConfig {
            qk_nope_head_dim: Some(usize::MAX),
            ..kimi_k2()
        }),
        "DeepseekV3ForCausalLM: MLA query head size overflowed"
    );
    assert_eq!(
        message(
            AdapterConfig::MlaMoe(Ok(MlaMoeConfig {
                qk_nope_head_dim: Some(100),
                ..mla_moe()
            })),
            "DeepseekV4ForCausalLM"
        ),
        "DeepseekV4ForCausalLM: qk_nope_head_dim must be divisible by 64 for packed MLA KV layout: 100"
    );
}

#[test]
fn kimi_layer_lists_must_divide_the_layers() {
    let refused = |kda: Vec<usize>, full: Vec<usize>| {
        message(
            kimi_adapter(KimiLinearConfig {
                linear_attn_config: Some(KimiLinearAttentionConfig {
                    head_dim: Some(2),
                    num_heads: Some(1),
                    short_conv_kernel_size: Some(2),
                    kda_layers: Some(kda),
                    full_attn_layers: Some(full),
                }),
                ..kimi_linear()
            }),
            "KimiLinearForCausalLM",
        )
    };
    assert!(refused(vec![1, 1], vec![2]).ends_with("kda_layers contains duplicate layers"));
    assert!(refused(vec![5, 3], vec![2]).ends_with("kda_layers contains out-of-range layer 3"));
    assert!(refused(vec![], vec![1, 2]).contains("at least one KDA and one full-attention layer"));
    assert!(refused(vec![1, 2], vec![2]).ends_with("layer 2 appears in both KDA and full-attention lists"));
    let three = KimiLinearConfig {
        num_hidden_layers: Some(3),
        ..kimi_linear()
    };
    assert!(message(kimi_adapter(three), "KimiLinearForCausalLM")
        .ends_with("must partition every 1-based model layer"));
    assert_eq!(
        build_kimi_linear_definition(
            &hf("kimi_linear", &["KimiLinearForCausalLM"]),
            Ok(kimi_linear()),
            Err("odd width".to_string())
        )
        .expect_err("the kernel refuses")
        .to_string(),
        "KimiLinearForCausalLM: odd width"
    );
}

#[test]
fn qwen3_5_layers_must_be_of_both_kinds() {
    let refused = |types: &[&str]| {
        message(
            AdapterConfig::Qwen3_5 {
                config: Ok(Qwen3_5TextConfig {
                    layer_types: types.iter().map(|name| name.to_string()).collect(),
                    ..qwen3_5_text()
                }),
                width: RotaryWidth {
                    dim: Some(64),
                    factor: "0.25".to_string(),
                },
                rotary: Ok(()),
            },
            "Qwen3_5ForConditionalGeneration",
        )
    };
    assert!(refused(&["full_attention"; 4]).contains("at least one full_attention and one linear_attention"));
    assert!(refused(&["full_attention"]).ends_with("layer_types has 1 entries but num_hidden_layers is 4"));
    assert!(refused(&["full_attention", "conv", "linear_attention", "conv2"])
        .ends_with("unsupported hybrid layer type conv"));
    let odd = message(
        AdapterConfig::Qwen3_5 {
            config: Ok(qwen3_5_text()),
            width: RotaryWidth {
                dim: Some(63),
                factor: "0.25".to_string(),
            },
            rotary: Ok(()),
        },
        "Qwen3_5ForConditionalGeneration",
    );
    assert!(odd.ends_with("head_dim 256 * partial_rotary_factor 0.25 must produce a non-zero even rotary dimension"));
}

#[test]
fn kimi_k25_weights_lie_under_the_language_model() {
    let config = KimiK25Config {
        text_config: kimi_k2(),
        encoder_only: false,
        quantization_config: None,
    };
    let hf_config = hf("kimi_k25", &["KimiK25ForConditionalGeneration"]);
    let definition = build_kimi_k25_definition(&hf_config, Ok(config)).expect("definition");
    assert_eq!(
        requirement(&definition, "language_model.lm_head.weight"),
        Some(vec![3, 2])
    );
    assert_eq!(
        requirement(&definition, "language_model.model.layers.0.mlp.up_proj.weight"),
        Some(vec![2, 2])
    );
    let encoder = KimiK25Config {
        text_config: kimi_k2(),
        encoder_only: true,
        quantization_config: None,
    };
    assert!(build_kimi_k25_definition(&hf_config, Ok(encoder))
        .expect_err("no language model")
        .to_string()
        .contains("encoder_only"));
}

#[test]
fn runtimes_say_what_is_missing() {
    let glm = define(
        "/models/glm",
        "GlmMoeDsaForCausalLM",
        "glm_moe_dsa",
        AdapterConfig::MlaMoe(Ok(mla_moe())),
    );
    let offer = BackendOffer {
        name: "cpu".to_string(),
        supported_dtypes: vec![RuntimeDtype::F32, RuntimeDtype::Fp16],
        missing_components: Vec::new(),
    };
    assert_eq!(
        validate_runtime_support(&glm, &offer, &dtype_names(), 1)
            .expect_err("no common number type")
            .to_string(),
        "missing capabilities: execution dtype supported by both model (bfloat16) and cpu backend (float32, float16)"
    );
    assert!(validate_runtime_support(&glm, &offer, &dtype_names(), 0)
        .expect_err("no ranks")
        .to_string()
        .contains("tensor parallel size must be positive"));
    assert!(validate_runtime_support(&glm, &offer, &dtype_names(), 2)
        .expect_err("two ranks")
        .to_string()
        .ends_with("(requested 2)"));
    assert!(check_execution_dtype(&glm, &dtype_names(), RuntimeDtype::Bf16).is_ok());
    assert!(check_execution_dtype(&glm, &dtype_names(), RuntimeDtype::F32)
        .expect_err("not this type")
        .to_string()
        .ends_with("model execution dtype float32"));
}

#[test]
fn heads_shard_or_are_shared_evenly() {
    let grouped = AttentionArchitecture::MultiHead {
        num_attention_heads: 16,
        num_key_value_heads: 2,
        head_dim: 64,
    };
    assert!(grouped.validate_tensor_parallel(8).is_ok());
    assert!(grouped.validate_tensor_parallel(2).is_ok());
    assert_eq!(
        grouped.validate_tensor_parallel(3),
        Err("attention head count 16 must be divisible by tensor parallel size 3".to_string())
    );
    let uneven = AttentionArchitecture::MultiHead {
        num_attention_heads: 16,
        num_key_value_heads: 3,
        head_dim: 64,
    };
    assert_eq!(
        uneven.validate_tensor_parallel(2),
        Err("KV head count 3 must shard across or replicate evenly over tensor parallel size 2".to_string())
    );
    assert!(ModelCacheArchitecture::PagedKv.supports_radix_prefix_cache());
    assert!(!ModelCacheArchitecture::HybridState {
        full_attention_layer_count: 1,
        recurrent_state_layer_count: 1
    }
    .supports_kv_only_transfer());
}
