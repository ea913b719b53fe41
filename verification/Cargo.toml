[package]
name = "mdoc_disclosure"
version = "0.1.0"
edition = "2021"
publish = false

[dependencies]
chrono = { version = "=0.4.45", default-features = false, features = ["std", "clock"] }
indexmap = "=2.14.2"
p256 = { version = "=0.13.2", features = ["ecdsa"] }
rustls-webpki = "=0.101.7"
sentry = { version = "0.32", default-features = false }
serde = { version = "=1.0.229", features = ["derive"] }
serde_json = "=1.0.154"
x509-parser = "=0.16.0"
