//! Serving-runtime logic of a language-model server.

pub mod answer_laws;
pub mod architecture_laws;
pub mod artifact_error;
pub mod artifact_laws;
pub mod bootstrap_frame;
pub mod bootstrap_laws;
pub mod bootstrap_publisher;
pub mod bootstrap_route;
pub mod bootstrap_service;
pub mod bootstrap_state;
pub mod cache_laws;
pub mod checkpoint;
pub mod config_laws;
pub mod debug_text;
pub mod decoder_plans;
pub mod deepseek;
pub mod dense_laws;
pub mod expert_laws;
pub mod file_laws;
pub mod forward_laws;
pub mod http_answers;
pub mod http_inputs;
pub mod http_maintenance;
pub mod http_plans;
pub mod http_replies;
pub mod http_requests;
pub mod http_service;
pub mod hybrid_laws;
pub mod input_laws;
pub mod json;
pub mod json_text;
pub mod kimi_laws;
pub mod kimi_linear;
pub mod kv_cache;
pub mod latent_laws;
pub mod layer_tensors;
pub mod listing;
pub mod local_model;
pub mod message_laws;
pub mod mla_moe;
pub mod mla_plans;
pub mod model_config;
pub mod model_definition;
pub mod model_executor;
pub mod model_forward;
pub mod model_registry;
pub mod model_runtime;
pub mod models;
pub mod moe;
pub mod openai_embedding;
pub mod openai_rerank;
pub mod openai_score;
pub mod order;
pub mod ordered_map;
pub mod paged_kv_cache;
pub mod parallel;
pub mod path_parts;
pub mod paths;
pub mod payload;
pub mod payload_laws;
pub mod pd_bootstrap;
pub mod peer_laws;
pub mod profile;
pub mod qwen;
pub mod qwen3_5;
pub mod recurrent_state;
pub mod request_laws;
pub mod responses_stream;
pub mod routed_experts;
pub mod router;
pub mod routing_laws;
pub mod safetensors;
pub mod safetensors_manifest;
pub mod safetensors_spans;
pub mod sampling;
pub mod scoring_laws;
pub mod service_laws;
pub mod session_laws;
pub mod shard_laws;
pub mod stream_session;
pub mod tensor_data;
pub mod tensor_laws;
pub mod tensor_names;
pub mod text;
pub mod text_laws;
pub mod types;
pub mod weight_laws;
pub mod wire;
pub mod wire_laws;
pub mod worker_group;
