[package]
name = "caldav_ics_sync"
version = "0.1.0"
edition = "2021"
publish = false

[dependencies]
roxmltree = "*"
base64 = "*"
subtle = "*"
argon2 = "*"
axum = "*"
tokio = { version = "*", features = ["full"] }
reqwest = { version = "*", default-features = false }
anyhow = "*"
chrono = "*"
dotenvy = "*"
tracing = "*"
tracing-subscriber = { version = "*", features = ["env-filter"] }
tokio-retry2 = "*"
serde = { version = "*", features = ["derive"] }
tower-http = { version = "*", features = ["cors"] }
