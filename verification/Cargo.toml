[package]
name = "siren"
version = "0.1.0"
edition = "2021"
publish = false

[dependencies]
anyhow = "1"
base64 = "0.22"
bytes = "1"
futures-util = { version = "0.3", default-features = false }
pin-project-lite = "0.2"
pretty-bytes = "0.2"
reqwest = { version = "0.12", default-features = false }
serde = { version = "1", features = ["derive"] }
serde_json = "1"
tokio = { version = "1", features = ["io-util"] }
uuid = "1"
wasm-bindgen-futures = "0.4"
worker = "0.6"
