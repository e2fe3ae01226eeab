[package]
name = "bucket_set"
version = "0.1.0"
edition = "2021"
publish = false

[dependencies]
multihash = "0.8"
rust-base58 = "*"
