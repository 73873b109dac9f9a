[package]
name = "root_core"
version = "0.1.0"
edition = "2021"
publish = false

[dependencies]
rusqlite = { version = "0.37", features = ["bundled"] }
notify = "*"
walkdir = "2"
serde = { version = "1", features = ["derive"] }
tauri = { version = "2", default-features = false }
