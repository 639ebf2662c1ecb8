[package]
name = "aliyun_sdk"
version = "0.1.0"
edition = "2021"
publish = false

[dependencies]
base64 = "=0.22.1"
chrono = "=0.4.45"
hmac = "=0.12.1"
reqwest = { version = "=0.12.28", default-features = false }
serde_json = "=1.0.151"
sha1 = "=0.10.7"
uuid = { version = "=1.27.0", features = ["v4"] }
