[package]
name = "clipygo-plugin-msteams"
version = "0.1.0"
edition = "2021"
publish = false

[dependencies]
dirs = "5"
reqwest = { version = "0.12", default-features = false, features = ["blocking", "json", "rustls-tls"] }
serde = { version = "1", features = ["derive"] }
serde_json = "1"
urlencoding = "2"
