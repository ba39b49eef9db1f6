[package]
name = "fiber_types"
version = "0.1.0"
edition = "2021"
publish = false

[dependencies]
secp256k1 = { version = "=0.31.1", features = ["recovery"] }
musig2 = "=0.4.1"
ckb-types = "=1.1.4"
ckb-sdk = { version = "=5.1.0", default-features = false }
molecule = "=0.9.2"
hex = "=0.4.3"
once_cell = "=1.21.4"
thiserror = "=2.0.21"
serde = { version = "=1.0.229", features = ["derive"] }
