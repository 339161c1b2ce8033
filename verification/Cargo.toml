[package]
name = "user_repo"
version = "0.1.0"
edition = "2021"
publish = false

[dependencies]
actix-web = "*"
actix-cors = "*"
anyhow = "*"
chrono = "*"
dotenv = "*"
env_logger = "*"
futures = "*"
listenfd = "*"
log = "*"
serde = { version = "*", features = ["derive"] }
serde_json = "*"
sqlx = { version = "*", default-features = false, features = ["postgres", "runtime-tokio", "chrono"] }
