[package]
name = "object_store_server"
version = "0.1.0"
edition = "2021"
publish = false

[dependencies]
object_store = { version = "=0.12.5", default-features = false }
futures = "=0.3.34"
chrono = { version = "=0.4.45", features = ["serde"] }
uuid = { version = "=1.29.0", features = ["v4"] }
md5 = "=0.7.0"
clap = { version = "=4.6.7", features = ["derive", "env"] }
serde = { version = "=1.0.229", features = ["derive"] }
serde_json = "=1.0.154"
thiserror = "=1.0.69"
tokio = { version = "=1.54.1", features = ["full"] }
axum = "=0.7.9"
anyhow = "=1.0.104"
bytes = "=1.12.1"
http = "=1.5.0"
quick-xml = "=0.31.0"
tracing = "=0.1.44"
tracing-subscriber = "=0.3.23"
dotenvy = "=0.15.7"
async-trait = "=0.1.92"
tower = "=0.4.13"
reqwest = { version = "=0.12.28", default-features = false }
