[package]
name = "bevygap"
version = "0.1.0"
edition = "2021"
publish = false

[dependencies]
async-channel = "=2.5.0"
async-nats = "=0.50.0"
axum = "=0.7.9"
bevy = { version = "0.18", default-features = false }
futures-util = "=0.3.34"
log = "=0.4.34"
serde = { version = "=1.0.229", features = ["derive"] }
serde_json = "=1.0.154"
tokio = { version = "=1.54.1", features = ["rt", "macros"] }
tokio-tungstenite-wasm = "=0.9.0"
wasm-bindgen-futures = "=0.4.79"
