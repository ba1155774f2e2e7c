[package]
name = "ckb_bitcoin_spv"
version = "0.1.0"
edition = "2021"
publish = false

[dependencies]
bitcoin = "0.31"
bitcoin_hashes = "0.13"
ckb-merkle-mountain-range = "0.6"
primitive-types = "0.12"
thiserror = "1"
