[package]
name = "jelly_wasm"
version = "0.1.0"
edition = "2021"
publish = false

[dependencies]
ic-canister-kit = "*"
serde_json = "*"
wasm-bindgen = "*"
