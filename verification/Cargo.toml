[package]
name = "cyber_pumpkin"
version = "0.1.0"
edition = "2021"
publish = false

[dependencies]
serde = { version = "1", features = ["derive"] }
serde_json = "1"
ssh2 = "0.9"
