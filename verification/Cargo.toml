[package]
name = "transfer_agent"
version = "0.1.0"
edition = "2021"
publish = false

[dependencies]
slab = "0.4"
crossbeam-channel = "0.5"
curl = { version = "0.4", default-features = false }
