[package]
name = "phrase_warden"
version = "0.1.0"
edition = "2021"
publish = false

[dependencies]
chrono = "0.4"
dotenv = "0.15"
env_logger = "0.9"
futures-channel = "0.3"
futures-util = "0.3"
log = "0.4"
regex = "1"
reqwest = { version = "0.11", default-features = false, features = ["blocking", "json", "rustls-tls"] }
rust_decimal = { version = "1", features = ["db-tokio-postgres"] }
serde = { version = "1", features = ["derive"] }
serde_json = "1"
tokio = { version = "1", features = ["full"] }
tokio-postgres = "0.7"
tokio-tungstenite = { version = "0.15", features = ["rustls-tls"] }
url = "2"
