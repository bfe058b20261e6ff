[package]
name = "dummyhttp"
version = "1.0.0"
edition = "2021"
publish = false

[dependencies]
anyhow = "1"
axum = "0.5"
axum-server = { version = "0.4", features = ["tls-rustls"] }
chrono = "0.4"
clap = { version = "3", features = ["derive"] }
clap_complete = "3"
colored = "2"
colored_json = "2"
hyper = { version = "0.14", features = ["full"] }
Inflector = "0.11"
lipsum = "0.9"
serde_json = "1"
tokio = { version = "1", features = ["full"] }
tracing = "0.1"
tracing-subscriber = { version = "0.3", features = ["env-filter"] }
uuid = { version = "1", features = ["v4"] }
