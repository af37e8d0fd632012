[package]
name = "azoth"
version = "0.1.0"
edition = "2021"
publish = false

[dependencies]
chrono = "=0.4.45"
rand = "=0.8.8"
serde = { version = "=1.0.229", features = ["derive"] }
serde_json = { version = "=1.0.154", features = ["raw_value"] }
log = "=0.4.35"
env_logger = "=0.9.3"
dotenv = "=0.15.0"
tokio = { version = "=1.54.1", features = ["macros", "rt-multi-thread"] }
reqwest = { version = "=0.11.27", default-features = false, features = ["rustls-tls"] }
serenity = { version = "=0.11.7", default-features = false, features = ["builder", "cache", "client", "collector", "framework", "gateway", "http", "model", "standard_framework", "utils", "rustls_backend"] }
