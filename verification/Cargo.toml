[package]
name = "dnsmesh_app"
version = "0.1.0"
edition = "2021"
publish = false

[dependencies]
anyhow = "1"
argon2 = "0.5"
base64 = "0.22"
chacha20poly1305 = "0.10"
flate2 = "1"
hex = "0.4"
keyring = { version = "3", features = ["linux-native"] }
parking_lot = "0.12"
rand = "0.8"
reqwest = { version = "0.12", default-features = false, features = ["json", "rustls-tls"] }
serde = { version = "1", features = ["derive"] }
serde_json = "1"
serde_yaml = "0.9"
tar = "0.4"
tokio = { version = "1", features = ["sync", "rt", "macros"] }
zeroize = "1"

[dev-dependencies]
tempfile = "3"
