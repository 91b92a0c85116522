[package]
name = "byte_aes"
version = "0.2.2"
edition = "2021"
publish = false

[dependencies]
aes = "0.8"
