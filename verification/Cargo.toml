[package]
name = "cache_serde"
version = "0.1.0"
edition = "2021"
publish = false

[dependencies]
tokio = { version = "1", features = ["fs", "rt"] }
chrono = "0.4"

[dev-dependencies]
serde_json = "1"
