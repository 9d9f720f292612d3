[package]
name = "klyppd"
version = "0.3.2"
edition = "2021"
publish = false

[dependencies]
base64 = "0.22"
chrono = "0.4"
dirs = "6"
evdev = "0.12"
filetime = "0.2"
libc = "0.2"
notify = "6"
rusqlite = { version = "0.31", features = ["bundled"] }
serde = { version = "1", features = ["derive"] }
serde_json = "1"
tokio = { version = "1", features = ["rt"] }
uuid = { version = "1", features = ["v4"] }
