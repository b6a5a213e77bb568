[package]
name = "ekursy_api"
version = "0.1.0"
edition = "2021"
publish = false

[dependencies]
scraper = "=0.29.0"
ego-tree = "=0.11.1"
urlencoding = "=2.1.3"
cookie = "=0.18.2"
serde = { version = "=1.0.229", features = ["derive"] }
serde_json = "=1.0.154"
axum = "=0.8.9"
reqwest = { version = "=0.13.5", default-features = false, features = ["cookies", "json", "form", "query"] }
tokio = { version = "=1.54.1", features = ["full"] }
tokio-util = { version = "=0.7.20", features = ["io"] }
tower-cookies = "=0.11.0"
