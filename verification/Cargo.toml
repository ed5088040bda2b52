[package]
name = "doorcash"
version = "0.1.0"
edition = "2021"
publish = false

[dependencies]
anchor-lang = { version = "0.32", features = ["init-if-needed"] }
solana-sha256-hasher = { version = "2", features = ["sha2"] }
