[package]
name = "bevy_solana"
version = "0.1.0"
edition = "2021"
publish = false

[dependencies]
serde = { version = "=1.0.229", features = ["derive"] }
serde_json = "=1.0.154"
proc-macro2 = "=1.0.107"
quote = "=1.0.47"
syn = { version = "=2.0.119", features = ["full"] }
solana-sdk = "=4.1.0"
bincode = "=1.3.3"
base64 = "=0.22.1"
unicode-ident = "=1.0.27"
