[package]
name = "gekijou"
version = "0.1.0"
edition = "2021"
publish = false

[dependencies]
regex = "=1.13.1"
strsim = "=0.10.0"
chrono = { version = "=0.4.45", default-features = false, features = ["clock"] }
xml-rs = "=0.8.29"
serde = { version = "=1.0.229", features = ["derive"] }
serde_json = "=1.0.154"
reqwest = { version = "=0.11.27", default-features = false, features = ["json", "rustls-tls"] }
dirs = "=5.0.1"
walkdir = "=2.5.0"
open = "=3.2.0"
lazy_static = "=1.5.1"
tokio = { version = "=1.54.1", features = ["rt-multi-thread", "macros"] }
