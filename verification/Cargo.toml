[package]
name = "voice_orchestrator"
version = "0.1.0"
edition = "2021"
publish = false

[dependencies]
sha3 = "0.10"
tokio = { version = "1", features = ["rt-multi-thread", "sync", "time", "macros", "signal"] }
tokio-util = "0.7"
serde = { version = "1", features = ["derive"] }
serde_json = "1"
serde_yaml = "0.9"
chrono = "0.4"
rand = "0.9"
