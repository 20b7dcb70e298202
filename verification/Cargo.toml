[package]
name = "temp_sync"
version = "0.1.0"
edition = "2021"
publish = false

[dependencies]
lm-sensors = "*"
openrgb = "*"
tokio = { version = "*", features = ["full"] }
