[package]
name = "memebucket_server"
version = "0.1.0"
edition = "2021"
publish = false

[dependencies]
axum = "=0.8.9"
chrono = { version = "=0.4.45", default-features = false, features = ["alloc", "std"] }
serde = { version = "=1.0.229", features = ["derive"] }
sqlx = { version = "=0.8.6", default-features = false, features = ["runtime-tokio", "sqlite"] }
tracing = "=0.1.44"
uuid = "=1.29.0"
