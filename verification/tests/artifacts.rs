use sglang_srt::artifact_error::ModelArtifactError;
use sglang_srt::checkpoint::{CheckpointTensorRequirement, CheckpointTopology};
use sglang_srt::deepseek::MlaMoeConfig;
use sglang_srt::json_text::parse_json;
use sglang_srt::layer_tensors::{
    SafetensorsQuantizedLinearScaleKind, SafetensorsQuantizedLinearWeightCatalog,
};
use sglang_srt::local_model::{check_model_dir, LocalModelArtifacts};
use sglang_srt::mla_moe::{validate_deepseek_checkpoint, validate_glm_moe_dsa_checkpoint};
use sglang_srt::model_config::{needs_hub_config, HfModelConfig};
use sglang_srt::models::ConfigNumber;
use sglang_srt::order::TextOrder;
use sglang_srt::ordered_map::OrderedKey;
use sglang_srt::path_parts::{path_key, same_path};
use sglang_srt::paths::{
    default_hf_hub_cache, looks_like_hf_model_id, repo_cache_dir, resolve_model_path,
    resolve_model_path_from_hf_cache, snapshot_candidates, trim_text, HubCacheListing,
};
use sglang_srt::qwen::{build_qwen2_definition, QwenDenseConfig};
use sglang_srt::routed_experts::SafetensorsRoutedExpertProjectionWeights;
use sglang_srt::safetensors::{header_length, SafetensorsHeader, SafetensorsTensorMetadata};
use sglang_srt::safetensors_manifest::{
    index_candidates, SafetensorsManifest, ShardRead, ShardReads,
};
use sglang_srt::tensor_data::{
    fnv1a64_update, SafetensorsTensorData, SafetensorsTensorDecodeError, FNV1A64_OFFSET_BASIS,
};
use sglang_srt::tensor_names::{
    parse_layer_tensor_name, parse_routed_expert_weight_name, SafetensorsRoutedExpertProjection,
    SafetensorsRoutedExpertWeightComponent,
};

// The header of a shard that holds the tensors one behind the other, and the length of the shard.
fn shard(tensors: &[(&str, &str, Vec<usize>, usize)]) -> (Vec<u8>, u64) {
    let mut offset = 0;
    let mut entries = Vec::new();
    for (name, dtype, shape, width) in tensors {
        let len = shape.iter().product::<usize>() * width;
        entries.push(format!(
            "\"{name}\": {{\"dtype\": \"{dtype}\", \"shape\": {shape:?}, \"data_offsets\": [{offset}, {}]}}",
            offset + len
        ));
        offset += len;
    }
    let header = format!("{{\"__metadata__\": {{\"format\": \"pt\"}}, {}}}", entries.join(", "));
    let total = 8 + header.len() + offset;
    (header.into_bytes(), total as u64)
}

fn loaded(path: &str, header: &[u8], file_len: u64) -> ShardRead {
    ShardRead::Loaded {
        header: SafetensorsHeader::from_bytes(path, &header.to_vec()).expect("header"),
        file_len: Ok(file_len),
    }
}

fn config(text: &str) -> HfModelConfig {
    HfModelConfig::from_json_value(parse_json(text.as_bytes()).expect("document")).expect("config")
}

fn model(tensors: &[(&str, &str, Vec<usize>, usize)]) -> LocalModelArtifacts {
    let (header, len) = shard(tensors);
    let manifest =
        SafetensorsManifest::from_file_names("/model", &vec!["model.safetensors".to_string()]);
    let mut reads = ShardReads::new();
    reads.push(
        "/model/model.safetensors".to_string(),
        loaded("/model/model.safetensors", &header, len),
    );
    LocalModelArtifacts::from_resolved_model_path(
        "/model".to_string(),
        true,
        Ok(config(r#"{"architectures": ["Qwen2ForCausalLM"], "model_type": "qwen2"}"#)),
        manifest,
        reads,
    )
    .expect("artifacts")
}

fn number(value: f64) -> Option<ConfigNumber> {
    Some(ConfigNumber {
        wide: value.to_bits(),
        narrow: (value as f32).to_bits(),
    })
}

fn qwen_config() -> QwenDenseConfig {
    QwenDenseConfig {
        vocab_size: Some(8),
        max_position_embeddings: Some(32),
        num_hidden_layers: Some(1),
        hidden_size: Some(4),
        intermediate_size: Some(8),
        num_attention_heads: Some(2),
        original_num_attention_heads: None,
        num_key_value_heads: Some(1),
        head_dim: None,
        hidden_act: Some("silu".to_string()),
        attention_bias: None,
        rms_norm_eps: number(0.000001),
        rope_theta: number(1000000.0),
        rope_scaling: None,
        rope_parameters: None,
        rope_parameters_theta: None,
        use_sliding_window: None,
        sliding_window: None,
        tie_word_embeddings: Some(false),
    }
}

fn qwen_checkpoint(omitted: Option<&str>) -> LocalModelArtifacts {
    let tensors: Vec<(&str, &str, Vec<usize>, usize)> = vec![
        ("model.embed_tokens.weight", "F32", vec![8, 4], 4),
        ("model.norm.weight", "F32", vec![4], 4),
        ("lm_head.weight", "F32", vec![8, 4], 4),
        ("model.layers.0.self_attn.q_proj.weight", "F32", vec![4, 4], 4),
        ("model.layers.0.self_attn.q_proj.bias", "F32", vec![4], 4),
        ("model.layers.0.self_attn.k_proj.weight", "F32", vec![2, 4], 4),
        ("model.layers.0.self_attn.k_proj.bias", "F32", vec![2], 4),
        ("model.layers.0.self_attn.v_proj.weight", "F32", vec![2, 4], 4),
        ("model.layers.0.self_attn.v_proj.bias", "F32", vec![2], 4),
        ("model.layers.0.self_attn.o_proj.weight", "F32", vec![4, 4], 4),
        ("model.layers.0.input_layernorm.weight", "F32", vec![4], 4),
        ("model.layers.0.post_attention_layernorm.weight", "F32", vec![4], 4),
        ("model.layers.0.mlp.gate_proj.weight", "F32", vec![8, 4], 4),
        ("model.layers.0.mlp.up_proj.weight", "F32", vec![8, 4], 4),
        ("model.layers.0.mlp.down_proj.weight", "F32", vec![4, 8], 4),
    ];
    let included: Vec<_> = tensors
        .into_iter()
        .filter(|(name, ..)| Some(*name) != omitted)
        .collect();
    model(&included)
}

#[test]
fn qwen_adapter_validates_dense_decoder_weight_names_and_shapes() {
    let artifacts = qwen_checkpoint(None);
    let definition = build_qwen2_definition(artifacts.config(), Ok(qwen_config()))
        .expect("Qwen definition should build");
    definition
        .validate_checkpoint(&artifacts)
        .expect("complete Qwen dense decoder checkpoint should validate");
    definition
        .validate_dense_decoder_checkpoint(&artifacts)
        .expect("the plan asks for the same tensors");
}

#[test]
fn qwen_adapter_rejects_missing_dense_decoder_projection() {
    let artifacts = qwen_checkpoint(Some("model.layers.0.mlp.down_proj.weight"));
    let definition = build_qwen2_definition(artifacts.config(), Ok(qwen_config()))
        .expect("Qwen definition should build");
    let error = definition
        .validate_checkpoint(&artifacts)
        .expect_err("missing Qwen projection must fail checkpoint validation");
    assert!(error.to_string().contains("mlp.down_proj.weight"));
    assert_eq!(
        definition
            .validate_dense_decoder_checkpoint(&artifacts)
            .expect_err("the plan asks for it too")
            .to_string(),
        "failed to read safetensors tensor data /model: missing dense decoder checkpoint tensor model.layers.0.mlp.down_proj.weight"
    );
    assert!(definition
        .validate_hybrid_decoder_checkpoint(&artifacts)
        .expect_err("no hybrid plan")
        .to_string()
        .ends_with("model definition does not include a hybrid decoder execution plan"));
}

fn empty_mla_moe() -> MlaMoeConfig {
    MlaMoeConfig {
        vocab_size: None,
        max_position_embeddings: None,
        num_hidden_layers: None,
        hidden_size: None,
        intermediate_size: None,
        num_attention_heads: None,
        q_lora_rank: None,
        kv_lora_rank: None,
        qk_nope_head_dim: None,
        qk_rope_head_dim: None,
        v_head_dim: None,
        n_routed_experts: None,
        n_shared_experts: None,
        num_experts_per_tok: None,
        moe_intermediate_size: None,
        first_k_dense_replace: None,
        moe_layer_freq: None,
        hc_mult: None,
        n_group: None,
        topk_group: None,
        norm_topk_prob: None,
        routed_scaling_factor: None,
        scoring_func: None,
        topk_method: None,
        rms_norm_eps: None,
        rope_theta: None,
        rope_scaling: None,
        hidden_act: None,
        tie_word_embeddings: None,
        attention_bias: None,
        num_nextn_predict_layers: None,
        quantization_config: None,
    }
}

#[test]
fn headers_tell_where_tensors_lie() {
    let (header, len) = shard(&[
        ("b", "BF16", vec![2, 3], 2),
        ("a", "F32", vec![5], 4),
    ]);
    let read = SafetensorsHeader::from_bytes("s", &header).expect("header");
    assert_eq!(read.tensor_names(), vec!["a".to_string(), "b".to_string()]);
    let span = read
        .tensor_span("s", "a", &Ok(len))
        .expect("span")
        .expect("tensor");
    assert_eq!(span.absolute_byte_offset, 8 + header.len() as u64 + 12);
    assert_eq!(span.byte_len, 20);
    assert_eq!(span.metadata.shape, vec![5]);
    assert_eq!(read.tensor_span("s", "c", &Ok(len)), Ok(None));
    assert_eq!(
        read.tensor_span("s", "a", &Ok(len - 1))
            .expect_err("shard is short")
            .to_string(),
        "failed to read safetensors tensor data s: tensor a payload extends past end of shard"
    );
    assert_eq!(
        read.tensor_span("s", "a", &Err("gone".to_string())),
        Err(ModelArtifactError::ReadWeightShard {
            path: "s".to_string(),
            message: "gone".to_string()
        })
    );
    let entries = read.tensor_span_entries("s", &Ok(len)).expect("entries");
    assert_eq!(entries.len(), 2);
    assert_eq!(entries[1].0, "b");
    assert_eq!(header_length("s", &[4, 1, 0, 0, 0, 0, 0, 0]), Ok(260));
}

#[test]
fn headers_are_refused_with_their_reason() {
    let refused = |text: &str| {
        SafetensorsHeader::from_bytes("s", &text.as_bytes().to_vec())
            .expect_err("invalid header")
            .to_string()
    };
    assert!(refused("[]").ends_with("header must be a JSON object"));
    assert!(refused(r#"{"t": {}}"#).ends_with("tensor t is missing string dtype"));
    assert!(refused(r#"{"t": {"dtype": "F32"}}"#).ends_with("tensor t is missing shape array"));
    assert!(refused(r#"{"t": {"dtype": "F32", "shape": [-1]}}"#)
        .ends_with("tensor t shape contains a non-usize dimension"));
    assert!(refused(r#"{"t": {"dtype": "F32", "shape": []}}"#)
        .ends_with("tensor t is missing data_offsets array"));
    assert!(refused(r#"{"t": {"dtype": "F32", "shape": [], "data_offsets": [0]}}"#)
        .ends_with("tensor t data_offsets must have two entries"));
    assert!(refused(r#"{"t": {"dtype": "F32", "shape": [], "data_offsets": [0, 0.5]}}"#)
        .ends_with("tensor t data_offsets contains a non-usize offset"));
    let span = |text: &str| {
        SafetensorsHeader::from_bytes("s", &text.as_bytes().to_vec())
            .expect("header")
            .tensor_span("s", "t", &Ok(1 << 40))
            .expect_err("invalid span")
            .to_string()
    };
    assert!(span(r#"{"t": {"dtype": "F32", "shape": [1], "data_offsets": [4, 0]}}"#)
        .ends_with("tensor t data_offsets start is after end"));
    assert!(span(r#"{"t": {"dtype": "F32", "shape": [2], "data_offsets": [0, 4]}}"#)
        .ends_with("tensor t metadata expects 8 bytes but data_offsets describe 4 bytes"));
    assert!(span(r#"{"t": {"dtype": "X", "shape": [2], "data_offsets": [0, 4]}}"#)
        .ends_with("tensor t has unsupported safetensors dtype X"));
    assert!(span(&format!(
        r#"{{"t": {{"dtype": "F32", "shape": [{}, 2], "data_offsets": [0, 4]}}}}"#,
        u64::MAX
    ))
    .ends_with("tensor t element count overflowed"));
}

#[test]
fn indexes_name_the_shards_of_tensors() {
    let files = vec!["/m/b.safetensors".to_string(), "/m/a-1.safetensors".to_string()];
    let text = br#"{"weight_map": {"y": "b.safetensors", "x": "a-1.safetensors", "z": "b.safetensors"}}"#;
    let manifest = SafetensorsManifest::from_index_text("/m", &text.to_vec(), &files).expect("index");
    assert_eq!(manifest.tensor_names(), &vec!["x".to_string(), "y".to_string(), "z".to_string()]);
    assert_eq!(manifest.shard_for_tensor("z"), Some("/m/b.safetensors"));
    assert_eq!(
        manifest.shard_paths(),
        &vec!["/m/a-1.safetensors".to_string(), "/m/b.safetensors".to_string()]
    );
    assert_eq!(manifest.index_path(), "/m/model.safetensors.index.json");
    let refused = |text: &str| {
        SafetensorsManifest::from_index_text("/m", &text.as_bytes().to_vec(), &files)
            .expect_err("invalid index")
    };
    assert!(refused("{}").to_string().ends_with("missing object field weight_map"));
    assert!(refused(r#"{"weight_map": {}}"#).to_string().ends_with("weight_map is empty"));
    assert!(refused(r#"{"weight_map": {"x": 1}}"#)
        .to_string()
        .ends_with("weight_map entry x is not a string"));
    assert_eq!(
        refused(r#"{"weight_map": {"x": "c.safetensors"}}"#),
        ModelArtifactError::MissingWeightShard {
            path: "/m/c.safetensors".to_string()
        }
    );
    assert!(matches!(
        SafetensorsManifest::from_model_path("/m", Some(&Err("denied".to_string())), &Ok(vec![]), &files),
        Err(ModelArtifactError::ReadSafetensorsIndex { .. })
    ));
    assert_eq!(
        SafetensorsManifest::from_model_path("/m", None, &Ok(vec!["readme.md".to_string(), ".safetensors".to_string()]), &files),
        Err(ModelArtifactError::NoSafetensorsWeights { path: "/m".to_string() })
    );
    assert!(matches!(
        SafetensorsManifest::from_model_path("/m", None, &Err("denied".to_string()), &files),
        Err(ModelArtifactError::ReadModelDirectory { .. })
    ));
}

#[test]
fn tensors_outside_the_index_are_searched_in_every_shard() {
    let files = vec!["/m/a.safetensors".to_string(), "/m/b.safetensors".to_string()];
    let text = br#"{"weight_map": {"x": "a.safetensors", "y": "b.safetensors"}}"#;
    let manifest = SafetensorsManifest::from_index_text("/m", &text.to_vec(), &files).expect("index");
    let (a, a_len) = shard(&[("x", "F32", vec![1], 4)]);
    let (b, b_len) = shard(&[("y", "F32", vec![1], 4), ("extra", "U8", vec![3], 1)]);
    let mut reads = ShardReads::new();
    reads.push(files[0].clone(), loaded(&files[0], &a, a_len));
    assert!(!reads.covers(manifest.shard_paths()));
    reads.push(files[1].clone(), loaded(&files[1], &b, b_len));
    assert!(reads.covers(manifest.shard_paths()));
    let metadata = manifest
        .tensor_metadata(&reads, "extra")
        .expect("metadata")
        .expect("tensor");
    assert_eq!(metadata.dtype, "U8");
    assert_eq!(manifest.tensor_metadata(&reads, "none"), Ok(None));
    let entries = manifest.tensor_span_entries(&reads).expect("entries");
    assert_eq!(entries.len(), 2, "only what the index lists");
    let mut broken = ShardReads::new();
    let failure = ModelArtifactError::ReadWeightShard {
        path: files[0].clone(),
        message: "bad disk".to_string(),
    };
    broken.push(files[0].clone(), ShardRead::Failed(failure.clone()));
    broken.push(files[1].clone(), loaded(&files[1], &b, b_len));
    assert_eq!(manifest.tensor_span(&broken, "extra"), Err(failure));
    assert!(manifest.tensor_span(&broken, "y").expect("other shard").is_some());
}

#[test]
fn layer_tensors_are_found_by_layer_and_name() {
    let artifacts = qwen_checkpoint(None);
    let manifest = artifacts.safetensors();
    let catalog = manifest
        .layer_tensor_catalog(artifacts.shards())
        .expect("catalog");
    assert_eq!(catalog.tensor_count(), 12);
    assert_eq!(catalog.layer_ids(), vec![0]);
    assert_eq!(catalog.suffixes(0)[0], "input_layernorm.weight");
    assert!(catalog.span(0, "mlp.up_proj.weight").is_some());
    assert!(catalog.span(1, "mlp.up_proj.weight").is_none());
    let span = manifest
        .layer_tensor_span(artifacts.shards(), 0, "mlp.up_proj.weight")
        .expect("span")
        .expect("tensor");
    assert_eq!(span.tensor_name, "model.layers.0.mlp.up_proj.weight");
    assert_eq!(parse_layer_tensor_name("model.layers.12.a.b"), Some((12, "a.b".to_string())));
    assert_eq!(parse_layer_tensor_name("model.layers.x.a"), None);
    assert_eq!(parse_layer_tensor_name("model.layers.1."), None);
}

#[test]
fn quantized_weights_come_with_their_scales() {
    let artifacts = model(&[
        ("a.weight", "F8_E4M3", vec![2, 2], 1),
        ("a.weight_scale_inv", "F32", vec![1], 4),
        ("a.weight_scale", "F32", vec![1], 4),
        ("b.weight", "U8", vec![2], 1),
        ("b.weight_scale", "F32", vec![1], 4),
        ("c.weight", "F8_E5M2", vec![2], 1),
        ("d.weight", "BF16", vec![2], 2),
    ]);
    let catalog = SafetensorsQuantizedLinearWeightCatalog::from_safetensors_manifest(
        artifacts.safetensors(),
        artifacts.shards(),
    )
    .expect("catalog");
    assert_eq!(catalog.weight_count(), 2);
    assert_eq!(
        catalog.span("a.weight").expect("a").scale_kind,
        SafetensorsQuantizedLinearScaleKind::WeightScaleInv
    );
    assert_eq!(catalog.span("b.weight").expect("b").scale_tensor_name, "b.weight_scale");
    assert!(catalog.span("c.weight").is_none());
}

fn experts(with_down: bool) -> LocalModelArtifacts {
    let mut tensors: Vec<(&str, &str, Vec<usize>, usize)> = vec![
        ("model.layers.3.mlp.experts.1.w1.weight", "BF16", vec![2], 2),
        ("model.layers.3.mlp.experts.1.w3.weight", "BF16", vec![2], 2),
        ("model.layers.3.mlp.experts.0.gate_proj.weight_packed", "I32", vec![2], 4),
        ("model.layers.3.mlp.experts.0.gate_proj.weight_scale", "F32", vec![1], 4),
        ("model.layers.3.mlp.experts.0.gate_proj.weight_shape", "I64", vec![1], 8),
        ("model.layers.3.mlp.experts.0.up_proj.weight", "BF16", vec![2], 2),
        ("model.layers.3.mlp.experts.0.down_proj.weight", "BF16", vec![2], 2),
    ];
    if with_down {
        tensors.push(("model.layers.3.mlp.experts.1.w2.weight", "BF16", vec![2], 2));
    }
    model(&tensors)
}

#[test]
fn routed_experts_are_grouped_by_layer_and_number() {
    let artifacts = experts(true);
    let catalog = artifacts.routed_expert_weight_catalog().expect("catalog");
    assert_eq!(catalog.group_count(), 2);
    assert_eq!(catalog.coordinates(), vec![(3, 0), (3, 1)]);
    assert_eq!(catalog.layer_ids(), vec![3]);
    let layer = catalog.layer(3).expect("layer");
    assert_eq!(layer.layer_id(), 3);
    assert_eq!(layer.expert_ids(), vec![0, 1]);
    assert_eq!(layer.expert_count(), 2);
    let packed = layer.group(0).expect("expert");
    assert_eq!(packed.tensor_count(), 5);
    assert!(matches!(
        packed.gate,
        SafetensorsRoutedExpertProjectionWeights::CompressedTensorsInt4(_)
    ));
    assert!(catalog.layer(2).is_none());
    assert!(catalog.group(3, 1).is_some());
    assert_eq!(
        artifacts
            .safetensors()
            .probe_routed_expert_weight_dtype(artifacts.shards())
            .expect("probe"),
        Some("BF16".to_string())
    );
    let name = parse_routed_expert_weight_name("model.layers.3.mlp.experts.1.w2.weight").expect("name");
    assert_eq!(name.layer_id, 3);
    assert_eq!(name.expert_id, 1);
    assert_eq!(name.projection, SafetensorsRoutedExpertProjection::Down);
    assert_eq!(name.component, SafetensorsRoutedExpertWeightComponent::Weight);
    assert!(parse_routed_expert_weight_name("model.layers.3.mlp.experts.1.w2.weight.extra").is_none());
}

#[test]
fn incomplete_experts_are_refused() {
    let error = experts(false)
        .routed_expert_weight_catalog()
        .expect_err("no down projection");
    assert!(error
        .to_string()
        .ends_with("routed expert weight group for layer 3 expert 1 is missing down projection"));
    let mixed = model(&[
        ("model.layers.0.mlp.experts.0.w1.weight", "BF16", vec![2], 2),
        ("model.layers.0.mlp.experts.0.w1.weight_packed", "I32", vec![2], 4),
    ])
    .routed_expert_weight_catalog()
    .expect_err("mixed");
    assert!(mixed.to_string().contains("mixes unquantized and incomplete compressed-tensors components"));
    let twice = model(&[
        ("model.layers.0.mlp.experts.0.w1.weight", "BF16", vec![2], 2),
        ("model.layers.0.mlp.experts.0.gate_proj.weight", "BF16", vec![2], 2),
    ])
    .routed_expert_weight_catalog()
    .expect_err("twice");
    assert!(twice
        .to_string()
        .ends_with("duplicate routed expert weight component Weight for layer 0 expert 0"));
}

#[test]
fn checkpoints_must_hold_exactly_the_expected_experts() {
    let artifacts = model(&[
        ("model.layers.0.mlp.experts.0.w1.weight", "BF16", vec![2], 2),
        ("model.layers.0.mlp.experts.0.w2.weight", "BF16", vec![2], 2),
        ("model.layers.0.mlp.experts.0.w3.weight", "BF16", vec![2], 2),
    ]);
    let topology = |coordinates: Vec<(usize, usize)>, per_group: usize| {
        CheckpointTopology::new(Vec::new()).with_routed_experts(&coordinates, per_group)
    };
    let coverage = artifacts
        .validate_routed_expert_checkpoint_coverage(&topology(vec![(0, 0), (0, 0)], 3))
        .expect("coverage");
    assert_eq!(coverage.expected_group_count, 1);
    assert_eq!(coverage.actual_weight_count, 3);
    let refused = |coordinates: Vec<(usize, usize)>, per_group: usize| {
        artifacts
            .validate_routed_expert_checkpoint_coverage(&topology(coordinates, per_group))
            .expect_err("not covered")
            .to_string()
    };
    assert!(refused(vec![], 3).ends_with("expected 0 routed expert groups from model config but found 1"));
    assert!(refused(vec![(0, 0)], 9).ends_with("expected 9 routed expert tensors but found 3"));
    assert!(refused(vec![(0, 1)], 3).ends_with(
        "routed expert checkpoint coordinate mismatch: missing expected routed expert group layer 0 expert 1; unexpected routed expert group layer 0 expert 0"
    ));
    assert!(refused(vec![(0, 0), (0, 1)], usize::MAX).ends_with("expected routed expert weight count overflowed"));
    let shapes = CheckpointTopology::new(vec![CheckpointTensorRequirement::with_shape(
        "model.layers.0.mlp.experts.0.w1.weight".to_string(),
        vec![2, 1],
    )])
    .with_routed_experts(&vec![(0, 0)], 3);
    assert!(artifacts
        .validate_checkpoint_topology(&shapes)
        .expect_err("shape")
        .to_string()
        .ends_with("checkpoint tensor model.layers.0.mlp.experts.0.w1.weight shape [2] does not match expected [2, 1]"));
    let missing = CheckpointTopology::new(vec![CheckpointTensorRequirement::present("t".to_string())]);
    assert!(artifacts
        .validate_checkpoint_topology(&missing)
        .expect_err("missing")
        .to_string()
        .ends_with("missing checkpoint tensor t"));
}

#[test]
fn latent_checkpoints_are_checked_from_the_root() {
    let config = |layers: Option<usize>| MlaMoeConfig {
        num_hidden_layers: layers,
        hidden_size: Some(2),
        hc_mult: Some(1),
        ..empty_mla_moe()
    };
    let nothing = model(&[("other", "F32", vec![1], 4)]);
    let message = |error: ModelArtifactError| match error {
        ModelArtifactError::InvalidSafetensorsData { message, .. } => message,
        error => panic!("unexpected {error:?}"),
    };
    assert_eq!(
        message(validate_deepseek_checkpoint(&nothing, &config(None)).expect_err("no layers")),
        "missing DeepSeek model num_hidden_layers config"
    );
    assert!(message(validate_glm_moe_dsa_checkpoint(&nothing, &config(Some(0))).expect_err("no root"))
        .starts_with("missing GLM"));
    let root = |head: usize| {
        model(&[
            ("model.embed_tokens.weight", "F32", vec![1], 4),
            ("model.norm.weight", "F32", vec![1], 4),
            ("lm_head.weight", "F32", vec![1], 4),
            ("model.hc_head_fn", "F32", vec![1, 2], 4),
            ("model.hc_head_base", "F32", vec![head], 4),
            ("model.hc_head_scale", "F32", vec![1], 4),
        ])
    };
    assert_eq!(validate_glm_moe_dsa_checkpoint(&root(1), &config(Some(0))), Ok(()));
    assert_eq!(validate_deepseek_checkpoint(&root(1), &config(Some(0))), Ok(()));
    assert_eq!(
        message(validate_deepseek_checkpoint(&root(3), &config(Some(0))).expect_err("shape")),
        "DeepSeek model tensor model.hc_head_base shape [3] does not match expected [1]"
    );
}

#[test]
fn catalogs_hold_all_parts_of_a_checkpoint() {
    let artifacts = experts(true);
    let catalog = artifacts.checkpoint_catalog().expect("catalog");
    assert_eq!(catalog.model_path(), "/model");
    assert_eq!(catalog.routed_experts().group_count(), 2);
    assert_eq!(catalog.layer_tensors().tensor_count(), 8);
    assert_eq!(catalog.quantized_linear_weights().weight_count(), 0);
    assert_eq!(catalog.safetensors().shard_paths().len(), 1);
    assert_eq!(
        LocalModelArtifacts::from_resolved_model_path(
            "/nowhere".to_string(),
            false,
            Ok(HfModelConfig::default()),
            Err(ModelArtifactError::NoSafetensorsWeights { path: "/nowhere".to_string() }),
            ShardReads::new(),
        ),
        Err(ModelArtifactError::ModelPathNotLocalDirectory {
            path: "/nowhere".to_string()
        })
    );
}

fn decoded(dtype: &str, bytes: Vec<u8>) -> Result<Vec<f32>, SafetensorsTensorDecodeError> {
    SafetensorsTensorData {
        metadata: SafetensorsTensorMetadata {
            dtype: dtype.to_string(),
            shape: vec![bytes.len()],
            data_offsets: [0, bytes.len()],
        },
        bytes,
    }
    .decode_f32_values()
    .map(|values| values.into_iter().map(f32::from_bits).collect())
}

#[test]
fn tensor_bytes_become_numbers() {
    let mut bytes = Vec::new();
    for value in [1.5f32, -0.25] {
        bytes.extend_from_slice(&value.to_le_bytes());
    }
    assert_eq!(decoded("F32", bytes).expect("F32"), vec![1.5, -0.25]);
    assert_eq!(decoded("BF16", vec![0x80, 0x3f, 0x00, 0xc0]).expect("BF16"), vec![1.0, -2.0]);
    // One, the smallest subnormal, minus infinity.
    let half = decoded("F16", vec![0x00, 0x3c, 0x01, 0x00, 0x00, 0xfc]).expect("F16");
    assert_eq!(half, vec![1.0, 2f32.powi(-24), f32::NEG_INFINITY]);
    assert!(decoded("F16", vec![0x01, 0x7e]).expect("F16")[0].is_nan());
    // Every number of eight bits, by the formula of its fields.
    let all: Vec<u8> = (0..=255).collect();
    let values = decoded("F8_E4M3", all.clone()).expect("F8_E4M3");
    for (byte, value) in all.into_iter().zip(values) {
        let sign = if byte & 0x80 == 0 { 1.0f32 } else { -1.0 };
        let exponent = i32::from((byte >> 3) & 0x0f);
        let mantissa = f32::from(byte & 7);
        if exponent == 15 && byte & 7 == 7 {
            assert!(value.is_nan());
        } else if exponent == 0 {
            assert_eq!(value, sign * 2f32.powi(-6) * (mantissa / 8.0));
        } else {
            assert_eq!(value, sign * 2f32.powi(exponent - 7) * (1.0 + mantissa / 8.0));
        }
    }
    assert_eq!(
        decoded("F32", vec![0; 5]),
        Err(SafetensorsTensorDecodeError::InvalidByteLength {
            dtype: "F32".to_string(),
            byte_len: 5
        })
    );
    assert_eq!(
        decoded("I64", vec![]).expect_err("no numbers").to_string(),
        "cannot decode safetensors dtype I64 as f32"
    );
}

#[test]
fn checksums_can_be_computed_in_parts() {
    assert_eq!(fnv1a64_update(FNV1A64_OFFSET_BASIS, b""), 0xcbf29ce484222325);
    assert_eq!(fnv1a64_update(FNV1A64_OFFSET_BASIS, b"a"), 0xaf63dc4c8601ec8c);
    let parts = fnv1a64_update(fnv1a64_update(FNV1A64_OFFSET_BASIS, b"foo"), b"bar");
    assert_eq!(parts, fnv1a64_update(FNV1A64_OFFSET_BASIS, b"foobar"));
    assert_eq!(parts, 0x85944171f73967e8);
    let artifacts = qwen_checkpoint(None);
    let entries = artifacts
        .safetensors()
        .tensor_span_entries(artifacts.shards())
        .expect("entries");
    let checksums = vec![7u64; entries.len()];
    let fingerprint = SafetensorsManifest::checkpoint_fingerprint_entries(entries, &checksums);
    assert_eq!(fingerprint.len(), 15);
    assert_eq!(fingerprint[0].tensor_name, "lm_head.weight");
    assert_eq!(fingerprint[0].fnv1a64, 7);
    assert_eq!(fingerprint[0].byte_len, 128);
}

#[test]
fn configurations_are_read_from_their_documents() {
    let read = config(
        r#"{"model_type": "m", "architectures": ["A", 3, "B"], "eos_token_id": 9,
            "text_config": {"eos_token_id": [1, 2]}}"#,
    );
    assert_eq!(read.model_type.as_deref(), Some("m"));
    assert_eq!(read.architectures, vec!["A".to_string(), "B".to_string()]);
    assert_eq!(read.eos_token_ids, vec![1, 2]);
    assert!(read.text_document().has("eos_token_id"));
    let refused = |text: &str| {
        HfModelConfig::from_json_value(parse_json(text.as_bytes()).expect("document"))
            .expect_err("invalid")
            .to_string()
    };
    assert_eq!(
        refused(r#"{"eos_token_id": "x"}"#),
        "failed to parse model config <in-memory-config>: field eos_token_id must be an unsigned integer or array of unsigned integers"
    );
    assert!(refused(r#"{"eos_token_id": [4294967296]}"#).ends_with("field eos_token_id does not fit in u32"));
    assert!(matches!(
        HfModelConfig::from_config_text(&b"{".to_vec(), "/m/config.json"),
        Err(ModelArtifactError::InvalidModelConfig { .. })
    ));
}

#[test]
fn models_are_found_in_the_cache_of_the_hub() {
    let main = HubCacheListing {
        refs_main: Some("abc\n".to_string()),
        snapshot_names: Some(vec!["abc".to_string(), "zzz".to_string()]),
        files: vec!["/hub/models--o--n/snapshots/abc/config.json".to_string()],
    };
    assert_eq!(
        resolve_model_path_from_hf_cache("o/n", "/hub", &main),
        Some("/hub/models--o--n/snapshots/abc".to_string())
    );
    let last = HubCacheListing {
        refs_main: None,
        snapshot_names: Some(vec!["b".to_string(), "c".to_string(), "a".to_string()]),
        files: vec![
            "/hub/models--o--n/snapshots/a/config.json".to_string(),
            "/hub/models--o--n/snapshots/b/config.json".to_string(),
        ],
    };
    assert_eq!(
        resolve_model_path_from_hf_cache("o/n", "/hub", &last),
        Some("/hub/models--o--n/snapshots/b".to_string())
    );
    assert_eq!(resolve_model_path_from_hf_cache("-o/n", "/hub", &last), None);
    assert_eq!(
        snapshot_candidates("o/n", "/hub", "config.json", &main.refs_main, &None),
        vec!["/hub/models--o--n/snapshots/abc/config.json".to_string()]
    );
    assert_eq!(resolve_model_path("o/n", true, Some(("/hub", &last))), "o/n");
    assert_eq!(
        resolve_model_path("o/n", false, Some(("/hub", &last))),
        "/hub/models--o--n/snapshots/b"
    );
    assert_eq!(resolve_model_path("o/n", false, None), "o/n");
    assert!(looks_like_hf_model_id("owner/name"));
    assert!(!looks_like_hf_model_id("/owner/name"));
    assert!(!looks_like_hf_model_id("name"));
    assert_eq!(
        default_hf_hub_cache(None, None, Some("/home/u")),
        Some("/home/u/.cache/huggingface/hub".to_string())
    );
    assert_eq!(default_hf_hub_cache(None, Some("/hf/"), None), Some("/hf/hub".to_string()));
    assert_eq!(trim_text(" \tx y\u{3000}"), "x y");
}

#[test]
fn nothing_is_asked_by_default() {
    let topology = CheckpointTopology::default();
    assert!(topology.required_tensors().is_empty());
    assert_eq!(topology.routed_expert_weights_per_group(), 0);
    assert_eq!(topology, CheckpointTopology::new(Vec::new()));
    assert!(HfModelConfig::default().architectures.is_empty());
}

#[test]
fn paths_are_ordered_by_their_parts() {
    let paths = [
        "", "/", ".", "..", "./a", "a", "a/", "a//b", "a/b", "a/./b", "a/../b", "/a", "//a", "/./a",
        "/../a", "a-b", "a/b-c", "a.b", "../a", "./../a", "a/.", "A", "\u{e9}/a", "/m/./a.safetensors",
        "/m/a.safetensors", "/m//a.safetensors", "/m/../a.safetensors", "/m/-a.safetensors",
    ];
    for a in paths {
        for b in paths {
            let (left, right) = (std::path::Path::new(a), std::path::Path::new(b));
            let order = path_key(a).stands_to(&path_key(b));
            assert_eq!(order == TextOrder::Before, left < right, "{a} and {b}");
            assert_eq!(order == TextOrder::After, left > right, "{a} and {b}");
            assert_eq!(same_path(a, b), left == right, "{a} and {b}");
        }
    }
}

#[test]
fn shards_that_are_named_twice_are_listed_once() {
    let text = br#"{"weight_map": {
        "a": "./b.safetensors", "c": "b.safetensors", "d": "../z.safetensors", "e": ".//b.safetensors", "f": 1
    }}"#
    .to_vec();
    let mut candidates = index_candidates("/m", &text);
    candidates.sort();
    assert_eq!(
        candidates,
        ["/m/../z.safetensors", "/m/.//b.safetensors", "/m/./b.safetensors", "/m/b.safetensors"]
    );
    assert!(index_candidates("/m", &b"no index".to_vec()).is_empty());
    assert!(index_candidates("/m", &b"{}".to_vec()).is_empty());
    let text = br#"{"weight_map": {
        "a": "./b.safetensors", "c": "b.safetensors", "d": "../z.safetensors", "e": ".//b.safetensors"
    }}"#
    .to_vec();
    let manifest = SafetensorsManifest::from_index_text("/m", &text, &candidates).expect("index");
    assert_eq!(manifest.shard_paths(), &vec!["/m/../z.safetensors".to_string(), "/m/./b.safetensors".to_string()]);
    assert_eq!(manifest.shard_for_tensor("c"), Some("/m/b.safetensors"));
    let (b, b_len) = shard(&[("a", "F32", vec![1], 4), ("c", "U8", vec![4], 1), ("e", "U8", vec![1], 1)]);
    let mut reads = ShardReads::new();
    reads.push("/m/./b.safetensors".to_string(), loaded("/m/./b.safetensors", &b, b_len));
    reads.push(
        "/m/../z.safetensors".to_string(),
        ShardRead::Failed(ModelArtifactError::ReadWeightShard {
            path: "/m/../z.safetensors".to_string(),
            message: "denied".to_string(),
        }),
    );
    assert!(reads.covers(manifest.shard_paths()));
    let span = manifest.tensor_span(&reads, "c").expect("span").expect("tensor");
    assert_eq!(span.path, "/m/b.safetensors");
    assert_eq!(
        reads.read("/m//../z.safetensors"),
        Err(ModelArtifactError::ReadWeightShard {
            path: "/m//../z.safetensors".to_string(),
            message: "denied".to_string(),
        })
    );
}

#[test]
fn experts_are_put_together_from_their_tensors() {
    let expert = |layer: usize, expert: usize, part: &str| format!("model.layers.{layer}.mlp.experts.{expert}.{part}");
    let whole = |layer: usize, id: usize| {
        ["w1.weight", "w2.weight_packed", "w2.weight_scale", "w2.weight_shape", "w3.weight"]
            .map(|part| expert(layer, id, part))
    };
    let groups = |names: &[String]| {
        let tensors = names
            .iter()
            .map(|name| (name.as_str(), "U8", vec![1], 1))
            .collect::<Vec<_>>();
        let artifacts = model(&tensors);
        artifacts.safetensors().routed_expert_weight_groups(artifacts.shards())
    };
    let names = [whole(1, 0), whole(0, 3), whole(0, 1)].concat();
    let found = groups(&names).expect("groups");
    let places = found.iter().map(|group| (group.layer_id, group.expert_id)).collect::<Vec<_>>();
    assert_eq!(places, [(0, 1), (0, 3), (1, 0)]);
    assert_eq!(found.iter().map(|group| group.tensor_count()).sum::<usize>(), names.len());
    let refused = |names: &[String]| groups(names).expect_err("groups").to_string();
    assert!(refused(&names[1..]).ends_with("layer 1 expert 0 is missing gate projection"));
    assert!(refused(&[&names[..], &[expert(1, 0, "w1.weight_scale")]].concat())
        .ends_with("mixes unquantized and incomplete compressed-tensors components"));
    assert!(refused(&[&names[..], &[expert(1, 0, "gate_proj.weight")]].concat())
        .contains("duplicate routed expert weight component Weight for layer 1 expert 0"));
}

#[test]
fn quantized_weights_take_their_inverse_scales_first() {
    let artifacts = model(&[
        ("b.weight", "U8", vec![1], 1),
        ("b.weight_scale", "F32", vec![1], 4),
        ("b.weight_scale_inv", "F32", vec![1], 4),
        ("a.weight", "F8_E4M3", vec![1], 1),
        ("a.weight_scale", "F32", vec![1], 4),
        ("c.weight", "F8_E5M2", vec![1], 1),
        ("d.weight", "BF16", vec![1], 2),
        ("d.weight_scale", "F32", vec![1], 4),
    ]);
    let spans = artifacts
        .safetensors()
        .quantized_linear_weight_spans(artifacts.shards())
        .expect("spans");
    let told = spans
        .iter()
        .map(|span| (span.tensor_name.as_str(), span.scale_tensor_name.as_str()))
        .collect::<Vec<_>>();
    assert_eq!(told, [("a.weight", "a.weight_scale"), ("b.weight", "b.weight_scale_inv")]);
    assert_eq!(spans[1].scale_kind, SafetensorsQuantizedLinearScaleKind::WeightScaleInv);
}

#[test]
fn layers_and_suffixes_tell_the_same() {
    let artifacts = model(&[
        ("model.layers.10.b", "U8", vec![1], 1),
        ("model.layers.2.z", "U8", vec![1], 1),
        ("model.layers.2.a", "U8", vec![1], 1),
        ("model.norm", "U8", vec![1], 1),
    ]);
    let catalog = artifacts.safetensors().layer_tensor_catalog(artifacts.shards()).expect("catalog");
    assert_eq!(catalog.layer_ids(), [2, 10]);
    assert_eq!(catalog.suffixes(2), ["a", "z"]);
    assert!(catalog.suffixes(3).is_empty());
    assert_eq!(catalog.tensor_count(), 3);
    assert_eq!(catalog.span(10, "b").expect("span").tensor_name, "model.layers.10.b");
    assert!(catalog.span(10, "a").is_none());
    let twice = model(&[("model.layers.1.b", "U8", vec![1], 1), ("model.layers.01.b", "U8", vec![1], 1)]);
    assert!(twice
        .safetensors()
        .layer_tensor_catalog(twice.shards())
        .expect_err("twice")
        .to_string()
        .ends_with("duplicate layer tensor suffix for layer 1: b"));
}

#[test]
fn models_are_looked_for_before_they_are_read() {
    assert_eq!(check_model_dir("/m", true), Ok(()));
    assert_eq!(
        check_model_dir("/m", false),
        Err(ModelArtifactError::ModelPathNotLocalDirectory { path: "/m".to_string() })
    );
    assert_eq!(repo_cache_dir("/hub", "o/n"), "/hub/models--o--n");
    let missing = || {
        Err(ModelArtifactError::ReadModelConfig {
            path: "o/n/config.json".to_string(),
            message: "gone".to_string(),
        })
    };
    assert!(needs_hub_config(&missing(), "o/n"));
    assert!(!needs_hub_config(&missing(), "/o/n"));
    assert!(!needs_hub_config(&Ok(HfModelConfig::default()), "o/n"));
}
