[package]
name = "atomic_swap"
version = "0.1.0"
edition = "2021"
publish = false

[dependencies]
ark-bn254 = "=0.4.0"
ark-crypto-primitives = "=0.4.0"
ark-groth16 = "=0.4.0"
ark-serialize = "=0.4.2"
bdk = { version = "=0.28.2", default-features = false, features = ["std", "compiler", "rpc"] }
hex = "=0.4.3"
rand = "=0.8.8"
serde = { version = "=1.0.229", features = ["derive"] }
serde_json = "=1.0.151"
wasmer = "=4.4.0"
