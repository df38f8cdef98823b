[package]
name = "tonic_music"
version = "0.1.0"
edition = "2021"
publish = false

[dependencies]
clap = { version = "4", features = ["derive"] }
serde = { version = "1", features = ["derive"] }
serde_json = "1"
serde-wasm-bindgen = "*"
thiserror = "*"
uniffi = "*"
wasm-bindgen = "0.2"
