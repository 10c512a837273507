[package]
name = "db_gateway"
version = "0.1.0"
edition = "2021"
publish = false

[dependencies]
url = "*"
chrono = "*"
serde = { version = "*", features = ["derive"] }
serde_json = "*"
tokio = { version = "*", features = ["rt-multi-thread", "macros", "time", "net"] }
axum = "*"
sqlx = { version = "*", features = ["runtime-tokio", "postgres", "uuid", "macros"] }
reqwest = { version = "*", default-features = false, features = ["json"] }
tracing = "*"
tracing-subscriber = "*"
uuid = "*"
