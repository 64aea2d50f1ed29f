[package]
name = "wasm-image-validator"
version = "0.1.0"
edition = "2021"
publish = false

[dependencies]
base64 = "0.22"
console_error_panic_hook = "0.1"
image = "0.25"
serde = { version = "1", features = ["derive"] }
serde_json = "1"
wasm-bindgen = "0.2"
