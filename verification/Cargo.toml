[package]
name = "ragent"
version = "0.1.0"
edition = "2021"
publish = false

[dependencies]
base64 = "=0.22.1"
chrono = "=0.4.45"
directories = "=6.0.0"
dirs = "=7.0.0"
fs2 = "=0.4.3"
futures = "=0.3.34"
imagesize = "=0.15.0"
openresponses-rust = "=2026.7.26"
rusqlite = { version = "=0.41.1", features = ["bundled"] }
serde = { version = "=1.0.229", features = ["derive"] }
serde_json = "=1.0.154"
sha2 = "=0.10.9"
thiserror = "=2.0.21"
tokio = { version = "=1.54.1", features = ["full"] }
tokio-util = "=0.7.20"
toml = "=1.1.8"
uuid = { version = "=1.29.0", features = ["v7"] }
wasmtime = "=46.0.3"
wasmtime-wasi = "=46.0.3"
