[package]
name = "lightspark_crypto_ruby"
version = "0.1.0"
edition = "2021"
publish = false

[dependencies]
magnus = "0.7"
