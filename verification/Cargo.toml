[package]
name = "aerome"
version = "0.1.0"
edition = "2021"
publish = false

[dependencies]
rayon = "=1.12.0"
serde = { version = "=1.0.229", features = ["derive"] }
serde_cbor = "=0.11.2"
dirs = "=5.0.1"
chrono = "=0.4.45"
md5 = "0.7"
url = "2"
