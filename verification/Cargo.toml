[package]
name = "sglang_srt"
version = "0.1.0"
edition = "2021"
publish = false

[dependencies]
axum = "=0.8.9"
hf-hub = { version = "=0.4.3", default-features = false, features = ["ureq"] }
rand = "=0.10.3"
serde = { version = "=1.0.229", features = ["derive"] }
serde_json = "=1.0.154"
serde_path_to_error = "=0.1.20"
tokio = { version = "1", features = ["rt-multi-thread", "net", "sync", "time", "macros"] }
tokio-stream = "0.1"
zeromq = { version = "0.4", default-features = false, features = ["tokio-runtime", "tcp-transport"] }
