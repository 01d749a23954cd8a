[package]
name = "mpc_node"
version = "0.1.0"
edition = "2021"
publish = false

[dependencies]
cait-sith = { version = "=0.8.0", features = ["k256"] }
k256 = "=0.13.4"
highway = "=1.3.0"
rand = "=0.7.3"
sha2 = "=0.10.9"
ripemd = "*"
threshold_crypto = "=0.4.0"
ed25519-dalek = "=1.0.1"

[dev-dependencies]
hex = "=0.4.3"
