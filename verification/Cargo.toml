[package]
name = "memo_store"
version = "0.1.0"
edition = "2021"
publish = false

[dependencies]
bech32 = "=0.8.1"
secret-cosmwasm-std = "=0.10.1"
secret-toolkit = { version = "=0.3.0", default-features = false, features = ["permit"] }
serde = "=1.0.229"

[dev-dependencies]
secp256k1 = "=0.33.1"
sha2 = "=0.11.0"
