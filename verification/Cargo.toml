[package]
name = "cortex-core"
version = "0.1.0"
edition = "2021"
publish = false

[dependencies]
aes-gcm = "=0.10.3"
pbkdf2 = { version = "=0.12.2", features = ["hmac"] }
sha2 = "=0.10.9"
hex = "=0.4.3"
rand = "=0.9.5"
serde = { version = "1", features = ["derive"] }
serde_json = "=1.0.154"
uuid = { version = "=1.29.0", features = ["v4"] }
anyhow = "1"
async-trait = "0.1"
tokio = { version = "1", features = ["rt-multi-thread", "macros", "process", "time", "signal", "sync", "fs", "io-util"] }
tokio-util = "0.7"
async-nats = "=0.38.0"
futures = "0.3"
futures-util = "0.3"
tracing = "0.1"
tracing-subscriber = { version = "0.3", features = ["env-filter"] }
clap = { version = "4", features = ["derive"] }
crossterm = "=0.28.1"
ratatui = "=0.29.0"
reqwest = { version = "0.12", default-features = false, features = ["rustls-tls"] }
html2text = "0.12"
notify = "6"
dotenvy = "0.15"
serenity = { version = "0.12", default-features = false, features = ["client", "gateway", "model", "http", "rustls_backend"] }
