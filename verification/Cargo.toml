[package]
name = "ganymede"
version = "0.1.0"
edition = "2021"
publish = false

[dependencies]
base64 = "=0.22.1"
chrono = "=0.4.45"
glob = "=0.3.4"
itertools = "=0.14.0"
log = "=0.4.34"
machine-uid = "=0.5.4"
md5 = "=0.7.0"
rand = "=0.9.5"
regex = "=1.13.1"
scraper = "=0.29.0"
semver = "=1.0.28"
serde = { version = "=1.0.229", features = ["derive"] }
serde_json = "=1.0.154"
sha2 = "=0.10.9"
tauri = { version = "2", default-features = false }
tauri-plugin-http = { version = "2", default-features = false }
thiserror = "=2.0.21"
tokio = { version = "=1.54.1", features = ["rt-multi-thread", "macros"] }
urlencoding = "=2.1.3"
uuid = { version = "=1.29.0", features = ["v4"] }
