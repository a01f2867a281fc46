[package]
name = "jahbo"
version = "0.1.0"
edition = "2021"
publish = false

[dependencies]
eframe = "0.18"
encoding = "0.2"
rayon = "1"
reqwest = { version = "0.11", default-features = false, features = ["blocking", "json", "rustls-tls"] }
serde_json = "1"
toml = "0.5"

[dev-dependencies]
regex = "1"
