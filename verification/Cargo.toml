[package]
name = "claw_router"
version = "0.1.0"
edition = "2021"
publish = false

[dependencies]
aidapter = "*"
anyhow = "1"
axum = "*"
chrono = { version = "0.4", features = ["serde"] }
regex = "1"
reqwest = { version = "*", features = ["json"] }
serde = { version = "1", features = ["derive"] }
serde_json = "1"
sha2 = "0.10"
tokio = { version = "1", features = ["full"] }
tower-http = { version = "*", features = ["cors"] }
tracing = "0.1"
tracing-subscriber = { version = "0.3", features = ["env-filter"] }
uuid = { version = "1", features = ["v4"] }
