[package]
name = "confique"
version = "0.1.0"
edition = "2021"
publish = false

[dependencies]
serde = { version = "1", features = ["derive"] }
toml = "0.8"
serde_yaml = "0.9"
json5 = "0.4"
