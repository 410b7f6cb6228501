[package]
name = "device_faker"
version = "0.1.0"
edition = "2021"
publish = false

[dependencies]
log = "0.4"
android_logger = "*"
anyhow = "1"
chrono = "0.4"
jni = "*"
toml = "*"
serde = { version = "1", features = ["derive"] }
