[package]
name = "open_fair_flow"
version = "0.1.0"
edition = "2021"
publish = false

[dependencies]
serde = { version = "1", features = ["derive"] }
serde_json = "1"
rand = "0.9"
uuid = { version = "1", features = ["v4"] }
chrono = "0.4"
base64 = "0.22"
image = { version = "0.25", default-features = false, features = ["png", "jpeg", "gif", "bmp", "webp"] }
parquet = { version = "*", default-features = false, features = ["snap"] }
rusqlite = { version = "*", features = ["bundled"] }
tokio = { version = "1", features = ["full"] }
axum = "0.8"
reqwest = { version = "0.12", default-features = false, features = ["rustls-tls"] }
dotenvy = "0.15"
