[package]
name = "hushnet_core"
version = "0.1.0"
edition = "2021"
publish = false

[dependencies]
base64 = "*"
ed25519-dalek = "*"
jsonwebtoken = "*"
chrono = "*"
serde = { version = "*", features = ["derive"] }
serde_json = "*"
uuid = { version = "*", features = ["v4", "serde"] }
tokio = { version = "*", features = ["full"] }
axum = { version = "*", features = ["ws"] }
reqwest = { version = "*", features = ["json"] }
sqlx = { version = "*", features = ["runtime-tokio", "postgres", "uuid", "chrono"], default-features = false }
anyhow = "*"
dotenvy = "*"
tracing-subscriber = "*"
