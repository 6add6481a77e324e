[package]
name = "chat_server"
version = "0.1.0"
edition = "2021"
publish = false

[dependencies]
actix-web = { version = "3", features = ["openssl"] }
chrono = { version = "0.4", features = ["serde"] }
derive_more = "0.99"
diesel = { version = "1.4", features = ["postgres", "r2d2", "uuidv07", "chrono"] }
diesel_migrations = "1.4"
dotenv = "0.15"
env_logger = "0.8"
openssl = "0.10"
pwhash = "1"
serde = { version = "1", features = ["derive"] }
serde_json = "1"
uuid = { version = "0.8", features = ["serde", "v4"] }
