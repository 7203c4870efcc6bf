[package]
name = "merkle_vault"
version = "0.1.0"
edition = "2021"
publish = false

[dependencies]
sha2 = "=0.10.9"
hex = "=0.4.3"
serde = { version = "1", features = ["derive"] }
clap = { version = "4", features = ["derive"] }
dialoguer = "0.11"
dirs = "5"
env_logger = "0.10"
indicatif = "0.18"
indicatif-log-bridge = "0.2"
log = "0.4"
reqwest = { version = "0.11", default-features = false, features = ["blocking", "json", "multipart"] }
uuid = { version = "1", features = ["v4"] }
rocket = { version = "0.5", features = ["json"] }

[dev-dependencies]
serde_json = "1"
