[package]
name = "game_hub"
version = "0.1.0"
edition = "2021"
publish = false

[dependencies]
rand = "0.8"
actix = "0.7"
actix-web = { version = "0.7", default-features = false }
serde = { version = "1", features = ["derive"] }
serde_json = "1"
env_logger = "0.10"
