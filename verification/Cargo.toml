[package]
name = "proxy_core"
version = "0.1.0"
edition = "2021"
publish = false

[dependencies]
bytes = "1"
base64 = "0.22"
serde = { version = "1", features = ["derive"] }
serde_json = "1"
once_cell = "1"
anyhow = "1"
tracing = "0.1"
tokio = { version = "1", features = ["full"] }
rust-raknet = "*"
