[package]
name = "marketplace_kit"
version = "0.1.0"
edition = "2021"
publish = false

[dependencies]
uuid = { version = "=1.29.0", features = ["v4", "serde"] }
serde_json = "=1.0.154"
http = "=1.5.0"
serde = { version = "=1.0.229", features = ["derive"] }
axum = "=0.7.9"
tokio = { version = "=1.54.1", features = ["macros", "rt-multi-thread", "fs"] }
sqlx = { version = "=0.8.6", default-features = false, features = ["runtime-tokio", "postgres", "uuid", "chrono", "json", "macros"] }
reqwest = { version = "=0.12.28", default-features = false, features = ["json"] }
argon2 = "=0.5.3"
jsonwebtoken = "=9.3.1"
chrono = { version = "=0.4.45", features = ["serde"] }
rand = "=0.8.8"
tracing = "=0.1.44"
async-trait = "=0.1.92"
thiserror = "=1.0.69"
