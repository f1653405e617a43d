[package]
name = "antares"
version = "0.1.0"
edition = "2021"
publish = false

[dependencies]
serde = { version = "1", features = ["derive"] }
tokio = { version = "1", features = ["fs", "process", "sync", "rt", "io-util"] }
toml = "0.8"
tracing = "0.1"
uuid = { version = "1", features = ["v4"] }
