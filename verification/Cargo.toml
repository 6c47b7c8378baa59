[package]
name = "pipeflow"
version = "0.1.0"
edition = "2021"
publish = false

[dependencies]
async-channel = "*"
serde = { version = "*", features = ["derive"] }
serde_json = "*"
