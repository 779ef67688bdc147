[package]
name = "calendar_indonesia"
version = "0.1.0"
edition = "2021"
publish = false

[dependencies]
scraper = "*"
chrono = "0.4"
uuid = { version = "1", features = ["v4"] }
serde = { version = "1", features = ["derive"] }
serde_json = "1"
tokio = { version = "1", features = ["macros", "rt-multi-thread", "time", "net"] }
axum = "0.8"
reqwest = { version = "0.12", default-features = false }
