[package]
name = "uor_xiv"
version = "0.1.0"
edition = "2021"
publish = false

[dependencies]
sha2 = "=0.10.9"
serde = { version = "=1.0.229", features = ["derive"] }
serde_json = "=1.0.154"
anyhow = "=1.0.104"
thiserror = "=1.0.69"
axum = { version = "=0.7.9", features = ["multipart"] }
tokio = { version = "=1.54.1", features = ["rt-multi-thread", "macros", "net", "signal"] }
clap = { version = "=4.6.7", features = ["derive"] }
tower-http = { version = "=0.5.2", features = ["cors"] }
uor-foundation = "=0.1.5"
wasmtime = "=25.0.3"
wasmtime-wasi = "=25.0.3"
