[package]
name = "portfolio_core"
version = "0.1.0"
edition = "2021"
publish = false

[dependencies]
serde_json = "*"
validator = "*"
chrono = "*"
serde = { version = "*", features = ["derive"] }
axum = "*"
tokio = { version = "*", features = ["rt-multi-thread", "net", "macros"] }
