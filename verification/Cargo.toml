[package]
name = "anychess"
version = "0.1.0"
edition = "2021"
publish = false

[dependencies]
generational-arena = "0.2"
serde = { version = "1", features = ["derive"] }
serde_json = "1"
rand = "0.9"
tokio = { version = "1", features = ["full"] }
axum = { version = "0.8", features = ["ws"] }
futures = "0.3"
jsonwebtoken = "9"
sqlx = { version = "0.8", default-features = false, features = ["postgres", "runtime-tokio", "json"] }
tower-http = { version = "0.6", features = ["trace"] }
tracing = "0.1"
tracing-subscriber = "0.3"
client-ip = "0.1"
dotenv = "0.15"
