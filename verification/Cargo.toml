[package]
name = "weii_joins"
version = "0.1.0"
edition = "2021"
publish = false

[dependencies]
chrono = "0.4"
configparser = "3"
env_logger = "0.11"
futures-util = { version = "0.3", features = ["sink"] }
log = "0.4"
regex = "1"
reqwest = { version = "0.12", default-features = false, features = ["json", "rustls-tls"] }
serde_json = "1"
tokio = { version = "1", features = ["full"] }
tokio-tungstenite = { version = "0.26", features = ["rustls-tls-webpki-roots"] }
