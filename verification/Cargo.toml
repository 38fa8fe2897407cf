[package]
name = "hw_assistant"
version = "0.1.0"
edition = "2021"
publish = false

[dependencies]
anyhow = "1"
config = { version = "*", default-features = false, features = ["json", "json5"] }
cursive = "*"
formatx = "*"
serde = { version = "1", features = ["derive"] }
serde_json = "1"
