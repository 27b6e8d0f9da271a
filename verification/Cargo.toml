[package]
name = "rust_yt_uploader"
version = "0.2.8"
edition = "2021"
publish = false

[dependencies]
anyhow = "1"
base64 = "0.22"
clap = { version = "4", features = ["derive"] }
futures = "0.3"
indicatif = "0.17"
open = "5"
rand = "0.10"
regex = "1"
reqwest = { version = "0.12", default-features = false, features = ["json", "multipart", "stream", "rustls-tls"] }
serde = { version = "1", features = ["derive"] }
serde_json = "1"
serde-jsonlines = "0.7"
serde_yaml_ng = "0.10"
sha2 = "0.10"
shellexpand = "3"
tempfile = "3"
tiny_http = "0.12"
tokio = { version = "1", features = ["full"] }
tokio-util = { version = "0.7", features = ["io"] }
tracing = "0.1"
tracing-subscriber = { version = "0.3", features = ["env-filter"] }
url = "2"
urlencoding = "2"
validator = { version = "0.20", features = ["derive"] }
