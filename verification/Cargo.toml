[package]
name = "soulflame"
version = "0.1.0"
edition = "2021"
publish = false

[dependencies]
aes = "*"
cfb8 = "*"
flate2 = "*"
base64 = "*"
tokio = { version = "*", features = ["full"] }
flume = "*"
anyhow = "*"
