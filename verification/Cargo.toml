[package]
name = "important"
version = "0.1.0"
edition = "2021"
publish = false

[dependencies]
crossterm = "0.27"
ollama-rs = { version = "0.1", features = ["stream"] }
tokio = { version = "1", features = ["full"] }
tokio-stream = "0.1"
