[package]
name = "tagbox"
version = "0.1.0"
edition = "2021"
publish = false

[dependencies]
uuid = { version = "=1.29.0", features = ["v4"] }
url = "=2.5.8"
anyhow = "=1.0.104"
chrono = "=0.4.45"
dirs = "=7.0.0"
open = "=5.4.5"
arboard = "=3.7.0"
tokio = { version = "=1.54.1", features = ["fs", "rt-multi-thread", "io-util", "time", "macros"] }
reqwest = { version = "=0.12.28", default-features = false, features = ["rustls-tls"] }
lopdf = { version = "=0.46.0", default-features = false }
pdf-extract = "=0.12.1"
clap = { version = "=4.6.7", features = ["derive"] }
serde_json = "=1.0.154"
tracing = "=0.1.44"
tracing-subscriber = "=0.3.23"
