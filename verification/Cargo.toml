[package]
name = "tictactoe"
version = "0.1.0"
edition = "2021"
publish = false

[dependencies]
actix-web = { version = "=4.18.1", default-features = false, features = ["macros"] }
actix-ws = "=0.3.1"
actix-cors = "=0.7.2"
tokio = { version = "=1.54.1", features = ["sync", "macros", "rt-multi-thread"] }
futures-util = "=0.3.34"
serde = { version = "=1.0.229", features = ["derive"] }
serde_json = "=1.0.154"
jsonwebtoken = "=9.3.1"
sqlx = { version = "=0.8.6", default-features = false, features = ["runtime-tokio", "postgres", "uuid", "time", "macros"] }
dotenvy = "=0.15.7"
anyhow = "=1.0.104"
uuid = { version = "=1.29.0", features = ["v4", "serde"] }
chrono = "=0.4.45"
rand = "=0.8.8"
time = { version = "=0.3.55", features = ["serde"] }
