[package]
name = "adbtools"
version = "0.1.0"
edition = "2021"
publish = false

[dependencies]
base64 = "=0.22.1"
serde = { version = "1", features = ["derive"] }
rusqlite = { version = "=0.32.1", features = ["bundled"] }
ureq = { version = "=2.12.1", default-features = false }
tauri = { version = "2", default-features = false }
