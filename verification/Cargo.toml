[package]
name = "sendbyte"
version = "0.2.0"
edition = "2021"
publish = false

[dependencies]
fastrand = "=2.5.0"
hex = "=0.4.3"
hmac = "=0.12.1"
httpdate = "=1.0.3"
reqwest = { version = "=0.12.28", default-features = false, features = ["json", "rustls-tls"] }
serde = { version = "=1.0.229", features = ["derive"] }
serde_json = "=1.0.154"
sha2 = "=0.10.9"
tokio = { version = "=1.54.1", features = ["time", "rt", "macros"] }
uuid = { version = "=1.29.0", features = ["v4"] }
