[package]
name = "upload_core"
version = "0.1.0"
edition = "2021"
publish = false

[dependencies]
anyhow = "1"
biliup = "=0.1.11"
futures = "0.3"
serde_json = "1"
serde_yaml = "0.8"
tokio = { version = "1", features = ["rt-multi-thread", "macros"] }
