[package]
name = "erp_api"
version = "0.1.0"
edition = "2021"
publish = false

[dependencies]
chrono = { version = "0.4", default-features = false, features = ["std", "clock", "serde"] }
itertools = "0.12"
umya-spreadsheet = "*"
axum = { version = "0.7", features = ["multipart", "macros"] }
axum-extra = { version = "0.9", features = ["cookie"] }
sqlx = { version = "0.7", default-features = false, features = ["postgres", "runtime-tokio", "chrono", "macros"] }
tokio = { version = "1", features = ["rt-multi-thread", "macros", "net"] }
serde = { version = "1", features = ["derive"] }
serde_json = "1"
thiserror = "1"
tower-http = { version = "0.5", features = ["cors"] }
tower-cookies = "0.10"
tracing = "0.1"
tracing-subscriber = "0.3"
dotenv = "0.15"
time = "0.3"
