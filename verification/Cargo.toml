[package]
name = "mwixnet"
version = "0.1.0"
edition = "2021"
publish = false

[dependencies]
grin_secp256k1zkp = "0.7"
rand = "0.8"
rand_chacha = "0.3"
