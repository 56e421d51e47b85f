[package]
name = "subway"
version = "0.1.0"
edition = "2021"
publish = false

[dependencies]
anyhow = "=1.0.104"
async-trait = "=0.1.92"
blake2 = "=0.10.6"
chrono = { version = "=0.4.45", default-features = false, features = ["clock"] }
clap = { version = "=4.6.7", features = ["derive"] }
futures = "=0.3.34"
garde = { version = "=0.18.0", features = ["derive"] }
governor = "=0.6.3"
http = "=1.5.0"
http-body-util = "=0.1.5"
hyper = "=1.12.0"
jsonrpsee = { version = "=0.23.2", features = ["server", "ws-client", "http-client"] }
moka = { version = "=0.12.16", features = ["future"] }
opentelemetry = "=0.21.0"
opentelemetry-datadog = "=0.9.0"
opentelemetry-jaeger = { version = "=0.20.0", features = ["rt-tokio"] }
opentelemetry_sdk = { version = "=0.21.2", features = ["rt-tokio"] }
rand = "=0.8.8"
rustls-webpki = { version = "0.102", features = ["std"] }
serde = { version = "=1.0.229", features = ["derive"] }
serde_json = { version = "=1.0.154", features = ["raw_value"] }
serde_yaml = "=0.9.34"
substrate-prometheus-endpoint = "=0.17.7"
tokio = { version = "=1.54.1", features = ["full"] }
tower = { version = "=0.4.13", features = ["full"] }
tower-http = { version = "=0.5.2", features = ["cors"] }
tracing = "=0.1.44"
tracing-serde = "0.1"
tracing-subscriber = { version = "0.3", features = ["env-filter", "json"] }
