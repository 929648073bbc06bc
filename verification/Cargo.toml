[package]
name = "evm_from_scratch"
version = "0.1.0"
edition = "2021"
publish = false

[dependencies]
hex = "*"
primitive-types = "*"
serde = { version = "*", features = ["derive"] }
serde_json = "*"
sha3 = "*"
