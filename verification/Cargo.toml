[package]
name = "starlane"
version = "0.1.0"
edition = "2021"
publish = false

[dependencies]
semver = "=1.0.28"
lru = { version = "=0.7.8", default-features = false }
bincode = "=1.3.3"
serde = { version = "=1.0.229", features = ["derive"] }
tokio = { version = "=1.54.1", features = ["net", "io-util", "time", "sync", "rt", "macros"] }
tokio-rustls = "=0.23.4"
rustls = "=0.20.9"
rcgen = "=0.10.0"
uuid = { version = "=1.29.0", features = ["v4"] }
chrono = "=0.4.45"
