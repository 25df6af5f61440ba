[package]
name = "task_scheduler"
version = "0.1.0"
edition = "2021"
publish = false

[dependencies]
crossbeam = "0.8"
uuid = { version = "1", features = ["v4"] }
serde = { version = "1", features = ["derive"] }
serde_json = "1"
solana-sdk = "2.2"
solana-pubkey = "2.2"
solana-system-interface = { version = "1.0", features = ["bincode"] }
