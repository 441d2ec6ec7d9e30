[package]
name = "husker"
version = "0.1.0"
edition = "2021"
publish = false

[dependencies]
serde = { version = "*", features = ["derive"] }
mongodb = "*"
tokio = { version = "*", features = ["rt-multi-thread", "macros", "net"] }
futures = "*"
dotenv = "*"
axum = "*"
http = "*"
tower-http = { version = "*", features = ["cors"] }
