[package]
name = "multisig_wallet"
version = "0.1.0"
edition = "2021"
publish = false

[dependencies]
alloy-primitives = "*"
alloy-sol-types = "*"
stylus-sdk = "*"
