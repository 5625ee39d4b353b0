[package]
name = "http_frontend"
version = "0.1.0"
edition = "2021"
publish = false

[dependencies]
ahash = "0.8"
anyhow = "1"
async-trait = "0.1"
bytes = "1"
chrono = "0.4"
http-body-util = "0.1"
humantime-serde = "1"
hyper = { version = "1", features = ["full"] }
hyper-staticfile = "0.10"
hyper-util = { version = "0.1", features = ["full"] }
regex = "1"
serde = { version = "1", features = ["derive"] }
serde_json = "1"
thiserror = "1"
tokio = { version = "1", features = ["full"] }
toml = "0.8"
tracing = "0.1"
tracing-subscriber = { version = "0.3", features = ["env-filter"] }
