[package]
name = "block_transfer"
version = "0.1.0"
edition = "2021"
publish = false

[dependencies]
futures = "0.3"
prost = "0.13"
serde = { version = "1", features = ["derive"] }
serde_yaml = "0.9"
solana-sdk = "1.18"
tokio = { version = "1", features = ["macros", "rt-multi-thread"] }
tokio-stream = "0.1"
tonic = { version = "0.12", default-features = false, features = ["transport", "codegen", "prost"] }
