[package]
name = "proton_drive"
version = "0.1.0"
edition = "2021"
publish = false

[dependencies]
base64 = "=0.22.1"
cookie = "=0.18.2"
dirs = "=5.0.1"
notify = "=6.1.1"
reqwest = { version = "=0.12.28", default-features = false, features = ["charset", "cookies", "http2", "rustls-tls"] }
serde = { version = "1", features = ["derive"] }
tokio = { version = "1", features = ["time"] }
url = "=2.5.8"
