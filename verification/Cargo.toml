[package]
name = "ultrahonk_rust_verifier"
version = "0.1.0"
edition = "2021"
publish = false

[dependencies]
ark-bn254 = "*"
ark-ff = "*"
soroban-sdk = "*"

[dev-dependencies]
soroban-sdk = { version = "*", features = ["testutils"] }
