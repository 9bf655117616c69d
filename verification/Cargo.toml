[package]
name = "token_ledger"
version = "0.1.0"
edition = "2021"
publish = false

[dependencies]
borsh = "0.10"
chrono = { version = "0.4", default-features = false, features = ["clock"] }
solana-program = "1.18"
