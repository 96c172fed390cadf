[package]
name = "identity_unlock"
version = "0.1.0"
edition = "2021"
publish = false

[dependencies]
byteorder = "1"
rand = "0.3"
rust-crypto = "0.2.36"
