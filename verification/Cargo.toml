[package]
name = "remote_proxy"
version = "0.1.0"
edition = "2021"
publish = false

[dependencies]
log = "0.4"
tauri = { version = "2", default-features = false, features = ["wry"] }
tauri-plugin-log = "2"

[dev-dependencies]
serde_json = "1"
