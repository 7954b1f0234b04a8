[package]
name = "shuji"
version = "0.1.0"
edition = "2021"
publish = false

[dependencies]
chrono = "0.4"
sha2 = "0.10"
regex-lite = "0.1"
serde = { version = "1", features = ["derive"] }
serde_json = "1"
serde_yaml = "0.9"
tokio = { version = "1", features = ["fs", "process", "time", "io-util", "rt", "rt-multi-thread", "sync", "macros"] }
anyhow = "1"
