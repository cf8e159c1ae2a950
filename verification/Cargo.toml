[package]
name = "dbsc_hello"
version = "0.1.0"
edition = "2021"
publish = false

[dependencies]
axum = "0.8"
axum-server = { version = "0.7", features = ["tls-rustls-no-provider"] }
base64 = "0.22"
p256 = "0.13"
rustls = { version = "0.23", default-features = false, features = ["ring", "std", "tls12", "logging"] }
serde_json = "1"
tokio = { version = "1", features = ["macros", "rt-multi-thread"] }
