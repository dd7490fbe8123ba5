[package]
name = "web_scraper"
version = "0.1.0"
edition = "2021"
publish = false

[dependencies]
anyhow = "1"
axum = { version = "0.7", features = ["macros"] }
base64 = "0.22"
bcrypt = "0.15"
chrono = "0.4"
dotenv = "0.15"
futures = "0.3"
futures-util = "0.3"
jsonwebtoken = "9"
mongodb = { version = "2.8", features = ["bson-chrono-0_4"] }
regex = "1"
reqwest = { version = "0.12", default-features = false, features = ["rustls-tls"] }
scraper = "*"
serde = { version = "1", features = ["derive"] }
serde_json = "1"
tokio = { version = "1", features = ["full"] }
tower-http = { version = "0.5", features = ["cors"] }
url = "2"
uuid = { version = "1", features = ["v4"] }
validator = { version = "0.18", features = ["derive"] }
