[package]
name = "wss"
version = "0.1.0"
edition = "2021"
publish = false

[dependencies]
adjust = { version = "0.1", features = ["redis", "json"] }
anyhow = "=1.0.104"
axum = { version = "=0.8.9", features = ["ws"] }
chrono = { version = "=0.4.45", features = ["serde"] }
futures-util = "=0.3.34"
reqwest = { version = "=0.12.28", default-features = false }
serde = { version = "=1.0.229", features = ["derive"] }
serde_json = "=1.0.154"
tokio = { version = "=1.54.1", features = ["sync", "rt", "macros"] }
