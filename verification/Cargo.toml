[package]
name = "praxis_ai"
version = "0.1.0"
edition = "2021"
publish = false

[dependencies]
async-trait = "0.1"
bytes = "1"
http = "1"
praxis-proxy-core = { version = "0.7", default-features = false }
praxis-proxy-filter = { version = "0.7", default-features = false }
serde = { version = "1", features = ["derive"] }
serde_json = "1"
serde_yaml = "0.9"
