[package]
name = "codex_usage_monitor"
version = "0.1.0"
edition = "2021"
publish = false

[dependencies]
serde = { version = "1", features = ["derive"] }
serde_json = "1"
chrono = "0.4"
dirs = "6"
tokio = { version = "1", features = ["process", "io-util", "time", "macros", "rt-multi-thread"] }
