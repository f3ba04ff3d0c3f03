[package]
name = "harness_sessions"
version = "0.1.0"
edition = "2021"
publish = false

[dependencies]
async-stream = "0.3"
flume = "0.11"
futures = "0.3"
memchr = "2"
serde = { version = "1", features = ["derive"] }
serde_json = "1"
time = { version = "0.3", features = ["parsing"] }
tokio = { version = "1", features = ["sync", "rt", "time", "macros"] }
typed-builder = "0.20"
