[package]
name = "fabbit_file_agent"
version = "0.1.0"
edition = "2021"
publish = false

[dependencies]
roxmltree = "0.20"
serde = { version = "1", features = ["derive"] }
serde_json = "1"
walkdir = "2"
tiny_http = "0.12"
notify = "8"
notify-debouncer-mini = "0.7"
dirs = "6"
open = "5"
reqwest = { version = "0.12", default-features = false, features = ["blocking", "json"] }
winreg = "0.55"
windows-sys = { version = "0.59", features = ["Win32_UI_Shell"] }
