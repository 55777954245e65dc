[package]
name = "diaryx_sync_extism"
version = "0.1.0"
edition = "2021"
publish = false

[dependencies]
base64 = "=0.22.1"
serde = { version = "=1.0.229", features = ["derive"] }
serde_json = "=1.0.154"
extism-pdk = "=1.4.1"
getrandom = { version = "0.2", features = ["custom"] }
diaryx_core = "=1.4.4"
diaryx_plugin_sdk = { version = "=0.3.4", features = ["http", "context", "getrandom-shim"] }
diaryx_sync = "=1.4.4"
