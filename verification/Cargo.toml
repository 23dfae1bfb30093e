[package]
name = "voice_chat"
version = "0.1.0"
edition = "2021"
publish = false

[dependencies]
anyhow = "1"
async-channel = "2"
bytes = "1"
clap = { version = "4", features = ["derive"] }
console_error_panic_hook = "0.1"
cpal = "0.15"
once_cell = "1"
opus = "0.3"
parking_lot = "0.12"
reqwest = { version = "0.12", default-features = false, features = ["json"] }
ringbuf = "0.3"
serde = { version = "1", features = ["derive"] }
stunclient = "0.4"
tokio = { version = "1", features = ["full"] }
tracing = "0.1"
tracing-appender = "0.2"
tracing-subscriber = { version = "0.3", features = ["env-filter", "local-time"] }
wasm-bindgen = "0.2"
web-sys = { version = "0.3", features = ["console"] }
webrtc-audio-processing = "0.4"
