[package]
name = "nestor_replay"
version = "0.1.0"
edition = "2021"
publish = false

[dependencies]
anyhow = "1"
chrono = { version = "0.4", default-features = false, features = ["alloc"] }
clap = { version = "4", features = ["derive"] }
dialoguer = { version = "0.11", default-features = false }
hex = "0.4"
indicatif = "0.17"
reqwest = { version = "0.12", default-features = false, features = ["blocking", "json", "rustls-tls"] }
serde = { version = "1", features = ["derive"] }
socketcan = { version = "3", default-features = false }
urlencoding = "2"
