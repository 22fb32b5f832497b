[package]
name = "mini_browser"
version = "1.0.0"
edition = "2021"
publish = false

[dependencies]
url = "=2.5.8"
serde = { version = "=1.0.229", features = ["derive"] }
serde_json = "=1.0.154"
tauri = { version = "=2.12.5", default-features = false, features = ["wry", "unstable", "common-controls-v6", "dynamic-acl"] }
