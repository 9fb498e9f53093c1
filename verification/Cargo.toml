[package]
name = "solana-nostd-alt-bn128"
version = "0.1.0"
edition = "2021"
publish = false

[dependencies]
ark-bn254 = "0.5.0"
ark-ec = "0.5.0"
ark-ff = "0.5.0"
ark-serialize = "0.5.0"
solana-program-error = "*"
