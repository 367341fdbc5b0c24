[package]
name = "slipstream"
version = "0.1.0"
edition = "2021"
publish = false

[dependencies]
pulldown-cmark = { version = "=0.12.2", default-features = false, features = ["html"] }
pulldown-cmark-escape = "=0.11.0"
serde = { version = "1", features = ["derive"] }
http = "1"
tauri = { version = "2", default-features = false, features = ["wry"] }
tauri-plugin-dialog = { version = "2", default-features = false }
tauri-plugin-fs = { version = "2", default-features = false }
