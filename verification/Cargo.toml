[package]
name = "yappr"
version = "0.1.0"
edition = "2021"
publish = false

[dependencies]
base64 = "0.22"
chrono = "0.4"
cpal = "*"
dirs = "*"
hound = "3"
libc = "0.2"
objc2 = "*"
objc2-app-kit = "*"
png = "*"
reqwest = { version = "0.12", default-features = false, features = ["blocking", "json", "rustls-tls"] }
serde = { version = "1", features = ["derive"] }
serde_json = "1"
sherpa-onnx = "*"
tray-icon = "*"
