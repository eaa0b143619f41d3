[package]
name = "vanity_miner"
version = "0.1.0"
edition = "2021"
publish = false

[dependencies]
secp256k1 = { version = "=0.29.1", features = ["global-context"] }
sha3 = "=0.10.9"
hex = "=0.4.3"
rand = "=0.8.8"
num-format = "0.4"
clap = { version = "4", features = ["derive"] }
ctrlc = "3"
serde_json = "1"
tokio = { version = "1", features = ["rt-multi-thread", "macros"] }
reqwest = { version = "0.12", default-features = false, features = ["json"] }
