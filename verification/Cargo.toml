[package]
name = "dictation"
version = "0.1.0"
edition = "2021"
publish = false

[dependencies]
cpal = "0.17"
enigo = "0.6"
global-hotkey = "0.7"
parking_lot = "0.12"
serde = { version = "1", features = ["derive"] }
serde_json = "1"
whisper-rs = "0.16"
