[package]
name = "doomslug"
version = "0.1.0"
edition = "2021"
publish = false

[dependencies]
bs58 = "0.4"
ed25519-dalek = "2.1"
sha2 = "0.10"
time = "0.3"
