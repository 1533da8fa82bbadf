[package]
name = "umadev"
version = "0.1.0"
edition = "2021"
publish = false

[dependencies]
unicode-segmentation = "=1.13.3"
base64 = "=0.22.1"
serde = { version = "=1.0.229", features = ["derive"] }
serde_json = "=1.0.154"
toml = "=0.8.23"
getrandom = "=0.2.17"
fs2 = "=0.4.3"
libc = "=0.2.191"
