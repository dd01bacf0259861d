[package]
name = "chunkstore"
version = "0.1.0"
edition = "2021"
publish = false

[dependencies]
aes-gcm = "0.10"
flate2 = "1"
rand = "0.8"
sha2 = "0.10"
bincode = "1"
if-addrs = "*"
serde = { version = "1", features = ["derive"] }
tokio = { version = "1", features = ["rt", "time"] }

[dev-dependencies]
serde_json = "1"
