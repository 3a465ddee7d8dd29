[package]
name = "llm_gateway"
version = "0.1.0"
edition = "2021"
publish = false

[dependencies]
uuid = { version = "*", features = ["v4"] }
serde = { version = "*", features = ["derive"] }
serde_json = "*"
axum = "*"
tokio = { version = "*", features = ["sync", "rt", "time", "macros"] }
futures = "*"
tokio-stream = "*"
tokio-util = "*"
anyhow = "*"
bytes = "*"
async-nats = "*"
tracing = "*"
