[package]
name = "editor_host"
version = "0.1.0"
edition = "2021"
publish = false

[dependencies]
serde = { version = "*", features = ["derive"] }
serde_json = "*"
tauri = { version = "*", default-features = false }
