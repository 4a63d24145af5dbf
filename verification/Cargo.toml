[package]
name = "outlook_msg"
version = "0.1.0"
edition = "2021"
publish = false

[dependencies]
cfb = "*"
compressed-rtf = "*"
encoding_rs = "0.8"
serde = { version = "1", features = ["derive"] }
serde_bytes = "0.11"
serde-wasm-bindgen = "*"
wasm-bindgen = "0.2"
