[package]
name = "opendut_core"
version = "0.1.0"
edition = "2021"
publish = false

[dependencies]
tokio = { version = "=1.54.1", features = ["sync", "rt", "macros", "time"] }
uuid = "=1.29.0"
clap = { version = "=4.6.7", features = ["derive"] }
serde_json = "=1.0.154"
anyhow = "=1.0.104"
config = { version = "=0.14.1", default-features = false }
tracing = "=0.1.44"
opentelemetry = "0.27"
opentelemetry_sdk = "0.27"
tracing-opentelemetry = "0.28"
