[package]
name = "zkevm_witness"
version = "0.1.0"
edition = "2021"
publish = false

[dependencies]
revm = { version = "*", default-features = false }
