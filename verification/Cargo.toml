[package]
name = "kiro_provider"
version = "0.1.0"
edition = "2021"
publish = false

[dependencies]
anyhow = "1"
chrono = { version = "0.4", default-features = false, features = ["clock", "std"] }
fastrand = "2"
parking_lot = "0.12"
reqwest = { version = "0.12", default-features = false, features = ["stream"] }
serde_json = "1"
tokio = { version = "1", features = ["rt", "time"] }
tracing = "0.1"
