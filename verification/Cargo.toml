[package]
name = "wallet_app"
version = "0.1.0"
edition = "2021"
publish = false

[dependencies]
serde_json = "=1.0.154"
actix = { version = "=0.8.3", default-features = false }
futures = "=0.1.31"
log = "=0.4.35"
