[package]
name = "prop_amm"
version = "0.1.0"
edition = "2021"
publish = false

[dependencies]
solana-program = "*"
solana-sdk = "*"
tokio = { version = "*", features = ["time"] }
