[package]
name = "prover_bridge"
version = "0.1.0"
edition = "2021"
publish = false

[dependencies]
hex = "0.4"

[dev-dependencies]
serde_json = "1"
