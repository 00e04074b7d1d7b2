[package]
name = "portfolio_backend"
version = "0.1.0"
edition = "2021"
publish = false

[dependencies]
regex = "1"
pulldown-cmark = { version = "0.9", default-features = false }
base64 = "0.21"
serde = { version = "1", features = ["derive"] }
serde_json = "1"
serde_yaml = "0.9"
chrono = { version = "0.4", features = ["serde"] }
actix-web = "4"
actix-files = "0.6"
actix-multipart = "0.6"
futures-util = "0.3"
reqwest = { version = "0.11", features = ["json"] }
jsonwebtoken = "8"
env_logger = "0.10"
