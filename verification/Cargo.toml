[package]
name = "scred-http"
version = "0.1.0"
edition = "2021"
publish = false

[dependencies]
http = "=1.5.0"
regex = "=1.13.1"
anyhow = "=1.0.104"
tokio = { version = "1", features = ["full"] }
tracing = "0.1"
tracing-subscriber = { version = "0.3", features = ["env-filter", "json"] }
serde = { version = "1", features = ["derive"] }
