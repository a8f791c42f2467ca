[package]
name = "ops_service"
version = "0.1.0"
edition = "2021"
publish = false

[dependencies]
anyhow = "1"
axum = { version = "0.8", features = ["http2"] }
axum-extra = "0.10"
humantime-serde = "1"
hyper = { version = "1", features = ["http1", "http2", "server"] }
hyper-util = { version = "0.1", features = ["http1", "http2", "server-auto", "tokio"] }
jiff = "0.2"
serde = { version = "1", features = ["derive"] }
tokio = { version = "1", features = ["full"] }
toml = "0.8"
tower = { version = "0.5", features = ["util"] }
tower-http = { version = "0.6", features = ["request-id", "timeout", "trace", "util"] }
tracing = "0.1"
tracing-subscriber = "0.3"
