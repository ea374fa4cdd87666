[package]
name = "decoder"
version = "0.1.0"
edition = "2021"
publish = false

[dependencies]
ed25519-dalek = "2"
chacha20poly1305 = "0.10"
rand_chacha = "0.3"
rand_core = "0.6"
