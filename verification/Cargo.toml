[package]
name = "msgkit"
version = "0.1.0"
edition = "2021"
publish = false

[dependencies]
base64 = "*"
blake3 = "*"
hex = "*"
parking_lot = "*"
rustc-hash = "*"
serde = "*"
toml = "*"
tracing = "*"
tracing-appender = "*"
tracing-subscriber = "*"
