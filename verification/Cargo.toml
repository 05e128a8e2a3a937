[package]
name = "woodhouse"
version = "0.1.0"
edition = "2021"
publish = false

[dependencies]
toml = "0.8"
tokio = { version = "1", features = ["rt-multi-thread", "macros", "fs", "net", "sync", "io-util"] }
axum = "0.8"
tracing = "0.1"
tracing-subscriber = "0.3"
