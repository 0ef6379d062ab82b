[package]
name = "ocapn_noise"
version = "0.1.0"
edition = "2021"
publish = false

[dependencies]
ed25519-dalek = { version = "2", features = ["rand_core"] }
getrandom = "0.3"
noise-protocol = "*"
noise-rust-crypto = "*"
rand_core = { version = "0.6", features = ["getrandom"] }
