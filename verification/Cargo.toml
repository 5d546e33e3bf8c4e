[package]
name = "engine_gateway"
version = "0.1.0"
edition = "2021"
publish = false

[dependencies]
axum = "0.8"
futures = "0.3"
rmp-serde = "1"
rmpv = { version = "1", features = ["with-serde"] }
serde = { version = "1", features = ["derive"] }
serde_json = "1"
sha2 = "0.10"
thiserror-ext = "0.3"
tokio = { version = "1", features = ["fs", "macros", "rt", "sync", "time"] }
tokio-stream = "0.1"
tonic = "0.14"
tonic-health = "0.14"
tracing = "0.1"
uuid = { version = "1", features = ["v4"] }
