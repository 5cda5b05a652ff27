[package]
name = "kitsune_engine"
version = "0.1.0"
edition = "2021"
publish = false

[dependencies]
url = "=2.5.8"
uuid = { version = "=1.29.0", features = ["v4"] }
chrono = "=0.4.45"
sha2 = "=0.10.9"
serde = { version = "=1.0.229", features = ["derive"] }
serde_json = "=1.0.154"
postcard = { version = "=1.1.3", features = ["alloc"] }
tokio = { version = "=1.54.1", features = ["full"] }
interprocess = { version = "=2.4.7", features = ["tokio"] }
html5ever = "=0.27.0"
markup5ever_rcdom = "=0.3.0"
selectors = "=0.28.0"
cssparser = "=0.35.0"
precomputed-hash = "=0.1.1"
thiserror = "=1.0.69"
dashmap = "=5.5.3"
parking_lot = "=0.12.5"
reqwest = { version = "=0.12.28", default-features = false, features = ["rustls-tls"] }
cookie_store = "=0.21.1"
tracing = "=0.1.44"
anyhow = "=1.0.104"
dirs = "=5.0.1"
