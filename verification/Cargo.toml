[package]
name = "together"
version = "0.1.0"
edition = "2021"
publish = false

[dependencies]
serde = { version = "=1.0.229", features = ["derive"] }
serde_json = "=1.0.154"
tauri = { version = "2", default-features = false, features = ["wry", "tray-icon"] }
winapi = { version = "0.3", features = ["minwindef", "handleapi", "processthreadsapi", "winbase", "winnt", "winuser"] }
objc2-app-kit = "0.3"
