[package]
name = "powchain"
version = "0.1.0"
edition = "2021"
publish = false

[dependencies]
ed25519 = "2"
ed25519-dalek = "2"
flume = { version = "0.11", default-features = false }
serde = { version = "1", features = ["derive"] }
sha2 = "0.10"
