[package]
name = "lotus"
version = "0.1.0"
edition = "2021"
publish = false

[dependencies]
url = "=2.5.8"
regex = "=1.13.1"
fancy-regex = "=0.11.0"
base64 = "=0.13.1"
html-escape = "=0.2.15"
url-escape = "=0.1.2"
urlencoding = "=2.1.3"
console = "=0.15.11"
serde = { version = "=1.0.229", features = ["derive"] }
serde_json = "=1.0.154"
bincode = "=1.3.3"
chrono = "=0.4.45"
colored = "=2.2.0"
crossbeam-channel = "=0.5.17"
futures = "=0.3.34"
indicatif = "=0.17.11"
lazy_static = "=1.5.1"
log = "=0.4.35"
mlua = { version = "=0.8.10", features = ["lua54", "vendored", "async", "serialize", "send"] }
reqwest = { version = "=0.11.27", default-features = false, features = ["rustls-tls", "multipart"] }
structopt = "=0.3.26"
thiserror = "=1.0.69"
tokio = { version = "=1.54.1", features = ["full"] }
thirtyfour = "=0.32.0"
interactsh-rs = "=0.3.1"
slinger = { version = "=0.2.15", features = ["cookie"] }
