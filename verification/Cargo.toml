[package]
name = "async-rate-limit"
version = "0.1.1"
edition = "2021"
publish = false

[dependencies]
tokio = { version = "1", features = ["sync", "time", "rt", "rt-multi-thread", "test-util"] }
