[package]
name = "snippet_vault"
version = "0.1.0"
edition = "2021"
publish = false

[dependencies]
anyhow = "=1.0.104"
chrono = "=0.4.45"
dirs = "=7.0.0"
futures-util = "=0.3.34"
ndarray = "=0.17.2"
ort = { version = "=2.0.0-rc.13", default-features = false, features = ["std", "ndarray", "alternative-backend"] }
reqwest = { version = "=0.12.28", default-features = false, features = ["rustls-tls", "stream"] }
rusqlite = { version = "=0.40.2", features = ["bundled"] }
serde = { version = "=1.0.229", features = ["derive"] }
tokenizers = "=0.23.2"
tokio = { version = "=1.53.2", features = ["fs", "io-util", "macros", "rt", "rt-multi-thread"] }
