[package]
name = "happening"
version = "0.1.0"
edition = "2021"
publish = false

[dependencies]
argon2 = "0.5"
chrono = "0.4"
validator = "*"
axum = "*"
axum-messages = "*"
tokio = { version = "*", features = ["rt-multi-thread", "net", "macros"] }
tower-sessions = "*"
serde = { version = "*", features = ["derive"] }
time = "*"
dotenvy = "*"
