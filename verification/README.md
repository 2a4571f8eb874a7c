# sglang-srt

The logic of a serving runtime for language models, written in Rust and proved with Verus: what a
request means, what is answered to it, where the tokens of a sequence lie in the cache, which files
and tensors a model is made of, and how two servers agree on a transfer.

- `src/` is the library. Every function states in its contract what it returns or changes, and
  Verus holds the code to it.
  - Documents and text: `json`, `json_text`, `text`, `debug_text`, `wire`, `order`, `ordered_map`,
    `listing`.
  - HTTP: `payload`, `http_requests`, `http_inputs`, `http_plans`, `http_answers`, `http_replies`,
    `http_maintenance`, `http_service`, `responses_stream`, `stream_session`, `openai_embedding`,
    `openai_rerank`, `openai_score`, `profile`, `router`.
  - Model files: `path_parts`, `paths`, `model_config`, `safetensors`, `safetensors_manifest`,
    `safetensors_spans`, `tensor_names`, `tensor_data`, `layer_tensors`, `routed_experts`,
    `checkpoint`, `local_model`, `artifact_error`, `artifact_laws`, `expert_laws`.
  - Models: `models`, `decoder_plans`, `model_definition`, `qwen`, `qwen3_5`, `deepseek`,
    `mla_plans`, `mla_moe`, `kimi_linear`, `model_registry`, `model_runtime`.
  - Execution: `kv_cache`, `paged_kv_cache`, `recurrent_state`, `model_executor`, `model_forward`,
    `sampling`, `moe`, `parallel`, `worker_group`, `types`.
  - Meeting of prefill and decode servers: `pd_bootstrap`, `bootstrap_frame`, `bootstrap_state`,
    `bootstrap_route`, `bootstrap_publisher`, `bootstrap_service`, `bootstrap_laws`.
- `tests/` runs the library on concrete values.
- `app/` is ordinary Rust around the library: sockets, files, threads, clocks, and floating-point
  arithmetic. Fractions cross into the library as the bits of their values.

What the library takes on trust is declared beside its use: the parser and printer of `serde_json`
(`json_text`), the `Debug` form of a string (`debug_text`), the check for UTF-8 (`bootstrap_frame`),
`String::push` (`text`), and the type `Mutex` (`bootstrap_service`).
