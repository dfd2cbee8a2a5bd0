[package]
name = "spai"
version = "0.1.0"
edition = "2021"
publish = false

[dependencies]
serde = { version = "1", features = ["derive"] }
serde_json = "1"
tokio = { version = "1", default-features = false, features = ["sync"] }
async-trait = "0.1"
tracing = { version = "0.1", default-features = false, features = ["std"] }
