[package]
name = "redefi_eth"
version = "0.1.0"
edition = "2021"
publish = false

[dependencies]
jsonrpsee = { version = "=0.24.11", features = ["server"] }
ethereum-types = "=0.14.1"
futures = "=0.3.34"
