[package]
name = "blockcell"
version = "0.1.0"
edition = "2021"
publish = false

[dependencies]
serde = { version = "=1.0.229", features = ["derive"] }
serde_json = "=1.0.154"
regex = "=1.13.1"
base64 = "=0.22.1"
aes = "=0.8.4"
cbc = { version = "=0.1.2", features = ["alloc"] }
url = "=2.5.8"
chrono = "=0.4.45"
uuid = { version = "=1.29.0", features = ["v4"] }
which = "=6.0.3"
dirs = "=5.0.1"
tokio = { version = "=1.54.1", features = ["full"] }
tokio-tungstenite = { version = "=0.21.0", features = ["rustls-tls-webpki-roots"] }
futures = "=0.3.34"
reqwest = { version = "=0.12.28", default-features = false, features = ["json", "stream", "multipart", "rustls-tls"] }
async-trait = "=0.1.92"
tracing = "=0.1.44"
