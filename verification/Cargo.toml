[package]
name = "bot_harness"
version = "0.1.0"
edition = "2021"
publish = false

[dependencies]
agent-client-protocol = { version = "=5.0.0", features = ["process"] }
anyhow = "=1.0.104"
chrono = { version = "=0.4.45", features = ["serde"] }
clap = { version = "=4.6.7", features = ["derive"] }
getrandom = "=0.3.4"
regex = "=1.13.1"
serde = { version = "=1.0.229", features = ["derive"] }
serde_json = { version = "=1.0.154", features = ["preserve_order"] }
tokio = { version = "=1.54.1", features = ["full"] }
toml = "=1.1.8"
xshell = "=0.2.7"
