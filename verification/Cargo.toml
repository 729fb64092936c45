[package]
name = "superposition_nft"
version = "0.1.0"
edition = "2021"
publish = false

[dependencies]
stylus-sdk = "=0.10.10"
alloy-primitives = "*"
alloy-sol-types = "*"
