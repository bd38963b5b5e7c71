[package]
name = "matchcore"
version = "0.1.0"
edition = "2021"
publish = false

[dependencies]
axum = "*"
chrono = "*"
serde = { version = "*", features = ["derive"] }
uuid = { version = "*", features = ["v4"] }
validator = "*"
