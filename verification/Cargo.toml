[package]
name = "btcpay_ws"
version = "0.1.0"
edition = "2021"
publish = false

[dependencies]
hmac = "0.10"
sha2 = "0.9"
hex = "0.4"
tide = "0.16"
tide-websockets = "*"
async-std = { version = "1", features = ["attributes"] }
async-trait = "0.1"
redis = "*"
serde = { version = "1", features = ["derive"] }
serde_json = "1"
clap = "2"
colored = "2"
