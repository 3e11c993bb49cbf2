[package]
name = "wallet713_broker"
version = "0.1.0"
edition = "2021"
publish = false

[dependencies]
secp256k1 = "*"
ring = "*"
sha2 = "*"
serde = { version = "*", features = ["derive"] }
serde_json = "*"
ws = "*"
