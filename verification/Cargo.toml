[package]
name = "bollwark"
version = "0.1.0"
edition = "2021"
publish = false

[dependencies]
argon2 = "=0.6.0"
axum = "=0.8.9"
chrono = { version = "=0.4.45", features = ["serde"] }
dotenvy = "=0.15.7"
hex = "=0.4.3"
hmac = "=0.13.0"
ipnet = "=2.12.2"
maxminddb = "=0.32.0"
notify-debouncer-full = "=0.7.0"
rand = "=0.10.3"
reqwest = { version = "=0.13.5", default-features = false, features = ["json"] }
rusqlite = { version = "=0.41.1", features = ["bundled"] }
serde = { version = "=1.0.229", features = ["derive"] }
serde_json = "=1.0.154"
sha2 = "=0.11.1"
thiserror = "=2.0.21"
tokio = { version = "=1.54.1", features = ["full"] }
tower = "=0.5.3"
tower-http = { version = "=0.7.1", features = ["cors", "trace", "fs", "set-header", "timeout"] }
tracing = "=0.1.44"
tracing-appender = "=0.2.5"
tracing-subscriber = { version = "=0.3.23", features = ["env-filter", "json"] }
uuid = { version = "=1.29.0", features = ["v4", "serde"] }
