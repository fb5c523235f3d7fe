[package]
name = "bridge_core"
version = "0.1.0"
edition = "2021"
publish = false

[dependencies]
sha2 = "*"
sha3 = "*"
hex = "*"
ed25519-dalek = "*"
