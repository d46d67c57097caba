[package]
name = "pep_daemon"
version = "0.1.0"
edition = "2021"
publish = false

[dependencies]
base64 = "=0.22.1"
bytes = "=1.10.1"
clap = { version = "=4.5.61", features = ["derive"] }
regorus = { version = "=0.11.0", default-features = false }
reqwest = { version = "=0.12.28", default-features = false, features = ["blocking", "rustls-tls"] }
serde = { version = "=1.0.229", features = ["derive"] }
serde_json = "=1.0.151"
sha2 = "=0.10.9"
thiserror = "=2.0.21"
url = "2"
uuid = { version = "=1.27.0", features = ["v4"] }
vsock = "=0.5.4"
