[package]
name = "loginapp"
version = "0.1.0"
edition = "2021"
publish = false

[dependencies]
actix-cors = "0.7"
actix-web = { version = "4", default-features = false, features = ["macros"] }
bcrypt = "0.15"
chrono = "0.4"
dotenv = "0.15"
env_logger = "0.11"
hmac = "0.12"
log = "0.4"
serde = { version = "1", features = ["derive"] }
sha2 = "0.10"
sqlx = { version = "0.7", default-features = false, features = ["runtime-tokio", "sqlite"] }
uuid = { version = "1", features = ["v4"] }
