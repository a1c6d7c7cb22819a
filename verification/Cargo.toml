[package]
name = "vitune_core"
version = "0.1.0"
edition = "2021"
publish = false

[dependencies]
base64 = "=0.13.1"
url = "=2.5.8"
serde = { version = "=1.0.229", features = ["derive"] }
serde_json = "=1.0.154"
reqwest = { version = "=0.11.27", default-features = false, features = ["json", "gzip", "brotli", "deflate", "rustls-tls"] }
tokio = { version = "=1.54.1", features = ["time"] }
thiserror = "=1.0.69"
log = "=0.4.34"
chrono = { version = "0.4", features = ["serde"] }
uuid = "0.8"
time = { version = "0.3", features = ["parsing", "formatting"] }
futures = "0.3"
once_cell = "1"
env_logger = "0.10"
