[package]
name = "solana-tss"
version = "0.1.0"
edition = "2021"
publish = false

[dependencies]
bs58 = "=0.4.0"
curv-kzen = "=0.9.0"
sha2 = "=0.9.9"
solana-sdk = "=1.10.41"
spl-memo = "=3.0.1"
structopt = "=0.3.26"
