[package]
name = "eso_addons"
version = "0.1.0"
edition = "2021"
publish = false

[dependencies]
serde_json = "1"
scraper = "*"
reqwest = { version = "0.12", default-features = false, features = ["blocking", "rustls-tls"] }
dirs = "*"
clap = { version = "4", features = ["derive"] }
requestty = "*"

[dev-dependencies]
tempfile = "3"
