[package]
name = "chain_core"
version = "0.1.0"
edition = "2021"
publish = false

[dependencies]
bs58 = "0.5"
chrono = "0.4"
ed25519-dalek = { version = "2", features = ["rand_core"] }
ethereum_ssz = "0.5"
hex = "0.4"
num_cpus = "1"
primitive-types = "0.13"
rand = "0.8"
ripemd = "0.1"
rocksdb = { version = "0.22", default-features = false }
serde = { version = "1", features = ["derive"] }
serde_json = "1"
sha2 = "0.10"
sha3 = "0.10"
thiserror = "1"
zeroize = { version = "1", features = ["derive"] }
