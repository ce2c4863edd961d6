[package]
name = "lightindark_v2"
version = "0.1.0"
edition = "2021"
publish = false

[dependencies]
anchor-lang = "=1.2.2"
anchor-spl = { version = "=1.2.2", default-features = false, features = ["token", "solana-v3"] }
ephemeral-rollups-sdk = "=0.17.3"
