[package]
name = "music_box"
version = "0.1.0"
edition = "2021"
publish = false

[dependencies]
rspotify = { version = "=0.16.1", default-features = false, features = ["client-ureq", "ureq-rustls-tls"] }
chrono = "=0.4.45"
dotenv = "=0.15.0"
serde = { version = "=1.0.229", features = ["derive"] }
serde_json = "=1.0.151"
