[package]
name = "subagents"
version = "0.1.0"
edition = "2021"
publish = false

[dependencies]
anyhow = "*"
async-channel = "*"
ratatui = "*"
serde = { version = "*", features = ["derive"] }
tokio = { version = "*", features = ["sync", "rt", "fs", "io-util", "macros", "rt-multi-thread"] }
tokio-util = "*"
toml = "*"
uuid = { version = "*", features = ["v4"] }
