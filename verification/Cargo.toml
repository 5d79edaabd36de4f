[package]
name = "aethersync"
version = "0.1.0"
edition = "2021"
publish = false

[dependencies]
rusqlite = { version = "=0.40.2", features = ["bundled"] }
notify = "=8.2.0"
serde = { version = "=1.0.229", features = ["derive"] }
base64 = "=0.23.1"
aes = "=0.7.5"
aes-gcm = "=0.11.1"
block-modes = "=0.8.1"
sha2 = "=0.11.0"
rand = "=0.8.8"
uuid = { version = "=1.27.0", features = ["v4"] }
chrono = "=0.4.45"
reqwest = { version = "=0.13.5", default-features = false, features = ["multipart", "json"] }
