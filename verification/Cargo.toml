[package]
name = "btclib"
version = "0.1.0"
edition = "2021"
publish = false

[dependencies]
chrono = { version = "=0.4.45", features = ["serde"] }
ciborium = "=0.2.2"
ecdsa = { version = "=0.16.9", features = ["signing", "verifying", "serde", "pem"] }
hex = "=0.4.3"
k256 = { version = "=0.13.4", features = ["serde", "pem"] }
rand = "=0.8.8"
serde = { version = "=1.0.229", features = ["derive"] }
sha256 = { version = "=1.6.0", default-features = false }
thiserror = "=1.0.69"
uint = "=0.9.5"
uuid = { version = "=1.29.0", features = ["v4", "serde"] }
