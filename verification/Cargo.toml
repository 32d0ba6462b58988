[package]
name = "clipsync"
version = "0.1.0"
edition = "2021"
publish = false

[dependencies]
axum = { version = "0.6", features = ["ws"] }
tokio = { version = "1", features = ["sync", "rt-multi-thread", "macros", "net", "time"] }
jsonwebtoken = "9"
serde = { version = "1", features = ["derive"] }
serde_json = "1"
toml = "0.8"
config = "0.14"
futures-util = "0.3"
tracing = "0.1"
tracing-subscriber = "0.3"
