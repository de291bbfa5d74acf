[package]
name = "banya"
version = "0.1.0"
edition = "2021"
publish = false

[dependencies]
serde = { version = "=1.0.229", features = ["derive"] }
serde_json = "=1.0.154"
wasmtime = "=46.0.3"
wasmtime-wasi = "=46.0.3"
clap = { version = "=4.6.7", features = ["derive"] }
