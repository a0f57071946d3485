[package]
name = "surrealx"
version = "0.1.0"
edition = "2021"
publish = false

[dependencies]
serde_json = "*"
chrono = "*"
tokio = { version = "*", features = ["sync", "rt", "macros"] }
axum = "*"
async-trait = "*"
serde = { version = "*", features = ["derive"] }
thiserror = "*"
redis = { version = "*", features = ["tokio-comp"] }
