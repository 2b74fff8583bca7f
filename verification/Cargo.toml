[package]
name = "fwrolloutd"
version = "0.1.0"
edition = "2021"
publish = false

[dependencies]
anyhow = "=1.0.104"
argh = "=0.1.19"
async-compression = { version = "=0.4.52", features = ["futures-io", "gzip"] }
async-tar = { version = "=0.5.1", default-features = false }
chrono = "=0.4.45"
futures = "=0.3.34"
futures-util = "=0.3.34"
lazy_static = "=1.5.1"
num-traits = "=0.2.19"
rand = "=0.8.8"
reqwest = { version = "=0.12.28", default-features = false, features = ["json", "stream", "rustls-tls"] }
serde = { version = "=1.0.229", features = ["derive"] }
serde_json = "=1.0.154"
serde_yaml = "=0.9.34"
tokio = { version = "=1.54.1", features = ["full"] }
tracing = "=0.1.44"
url = { version = "=2.5.8", features = ["serde"] }
