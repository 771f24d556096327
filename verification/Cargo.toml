[package]
name = "crud_service"
version = "0.1.0"
edition = "2021"
publish = false

[dependencies]
axum = "0.7"
dotenv = "0.15"
futures = "0.3"
mongodb = "2"
serde = { version = "1", features = ["derive"] }
serde_json = "1"
tokio = { version = "1", features = ["full"] }
