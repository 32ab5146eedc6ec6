[package]
name = "ecity_test"
version = "0.1.0"
edition = "2021"
publish = false

[dependencies]
elrond-wasm = "*"
elrond-wasm-modules = "*"
