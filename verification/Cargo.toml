[package]
name = "openai_adapter"
version = "0.1.0"
edition = "2021"
publish = false

[dependencies]
extism-pdk = "*"
serde = { version = "*", features = ["derive"] }
serde_json = "*"
anyhow = "*"
