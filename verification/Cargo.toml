[package]
name = "gateway_session"
version = "0.1.0"
edition = "2021"
publish = false

[dependencies]
solana-sdk = "*"
tokio = { version = "*", features = ["rt", "net", "time", "sync", "macros"] }
tokio-rustls = { version = "*", default-features = false, features = ["ring", "tls12", "logging"] }
tokio-tungstenite = "*"
futures = "*"
tracing = "*"
