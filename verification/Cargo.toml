[package]
name = "slasha_server"
version = "0.1.0"
edition = "2021"
publish = false

[dependencies]
sha2 = "=0.10.9"
hmac = "=0.12.1"
hex = "=0.4.3"
chrono = "=0.4.45"
chrono-tz = "=0.10.4"
cron-parser = "=0.12.0"
git2 = { version = "=0.20.4", default-features = false }
urlencoding = "=2.1.3"
jsonwebtoken = "=9.3.1"
serde = { version = "=1.0.229", features = ["derive"] }
serde_json = { version = "=1.0.154", features = ["preserve_order"] }
tokio = { version = "=1.54.1", features = ["rt", "time", "macros", "sync"] }
bollard = "=0.19.4"
reqwest = { version = "=0.12.28", default-features = false, features = ["json"] }
futures-util = "=0.3.34"
uuid = { version = "=1.29.0", features = ["v4"] }
anyhow = "=1.0.104"
