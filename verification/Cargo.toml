[package]
name = "chaincore"
version = "0.1.0"
edition = "2021"
publish = false

[dependencies]
schnorrkel = "0.11"
rand = "0.8"
serde = { version = "1", features = ["derive"] }
toml = "0.8"

[dev-dependencies]
