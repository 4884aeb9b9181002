[package]
name = "holochain_core"
version = "0.1.0"
edition = "2021"
publish = false

[dependencies]
futures = "=0.3.34"
multihash = "=0.8.0"
riker = "=0.4.2"
riker-patterns = "=0.4.2"
rust-base58 = "=0.0.4"
serde_json = "=1.0.154"
wasmi = "0.9"
