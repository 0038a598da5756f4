[package]
name = "bitnames"
version = "0.1.0"
edition = "2021"
publish = false

[dependencies]
anyhow = "1"
rust-crypto = "0.2.36"
rust_decimal = "1"
serde = { version = "1", features = ["derive"] }
serde_jcs = "0.1"
serde_json = "1"
serde_with = { version = "3", features = ["hex"] }
