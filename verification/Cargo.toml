[package]
name = "stealth_lib"
version = "0.1.0"
edition = "2021"
publish = false

[dependencies]
eth-stealth-addresses = "=0.1.0"
hex = "=0.4.3"
k256 = "=0.13.4"
rand = "=0.8.8"
serde = { version = "=1.0.229", features = ["derive"] }
serde-wasm-bindgen = "=0.6.5"
sha3 = "=0.10.9"
wasm-bindgen = "=0.2.129"
