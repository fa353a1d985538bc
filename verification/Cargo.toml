[package]
name = "jwt-compact"
version = "0.1.0"
edition = "2021"
publish = false

[dependencies]
anyhow = "1"
base64 = "0.13"
ed25519-compact = "1"
rand_core = "0.6"
serde = "1"
sha2 = "0.10"

[dev-dependencies]
serde_json = "1"
