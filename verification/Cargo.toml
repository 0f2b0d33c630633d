[package]
name = "collab_duplicator"
version = "0.1.0"
edition = "2021"
publish = false

[dependencies]
uuid = { version = "=1.29.0", features = ["v4"] }
serde_json = "=1.0.154"
chrono = "=0.4.45"
yrs = "=0.28.0"
anyhow = "=1.0.104"
tracing = "=0.1.44"
futures = "=0.3.34"
futures-util = "=0.3.34"
tokio = { version = "=1.54.1", features = ["rt", "sync", "time", "macros"] }
sqlx = { version = "=0.8.6", default-features = false, features = ["postgres", "runtime-tokio", "macros"] }
actix-web = { version = "=4.18.1", default-features = false }
actix-service = "=2.0.3"
reqwest = { version = "=0.12.28", default-features = false, features = ["json"] }
