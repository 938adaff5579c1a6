[package]
name = "acropolis"
version = "0.1.0"
edition = "2021"
publish = false

[dependencies]
anyhow = "1"
async-trait = "0.1"
clap = { version = "4", features = ["derive"] }
hex = "0.4"
pallas-addresses = "*"
pallas-codec = "*"
pallas-crypto = "*"
pallas-network = "*"
pallas-primitives = "*"
pallas-traverse = "*"
plutus-parser = "*"
tokio = { version = "1", features = ["macros", "rt-multi-thread"] }
