[package]
name = "streams"
version = "0.1.0"
edition = "2021"
publish = false

[dependencies]
iota-crypto = { version = "=0.23.2", features = ["ed25519", "x25519", "sha", "random"] }
hashbrown = "=0.17.1"
