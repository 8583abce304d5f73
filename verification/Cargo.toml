[package]
name = "wasm_bot_trap"
version = "0.1.0"
edition = "2021"
publish = false

[dependencies]
base64 = "*"
hmac = "*"
once_cell = "*"
percent-encoding = "*"
rand = "*"
serde = { version = "*", features = ["derive"] }
serde_json = "*"
sha2 = "*"
spin-sdk = "*"
