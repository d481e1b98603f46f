[package]
name = "spacebot"
version = "0.1.0"
edition = "2021"
publish = false

[dependencies]
anyhow = "=1.0.104"
axum = "=0.8.9"
chrono = { version = "=0.4.45", features = ["serde"] }
chrono-tz = "=0.10.4"
clap = { version = "=4.6.7", features = ["derive"] }
clap_complete = "4"
cron = "=0.17.0"
dialoguer = { version = "=0.12.0", default-features = false, features = ["password"] }
futures = "0.3"
open = "=5.4.5"
redb = "=2.6.4"
reqwest = { version = "=0.12.28", default-features = false, features = ["json", "multipart", "stream"] }
rig-core = { version = "=0.30.0", default-features = false }
serde = { version = "1", features = ["derive"] }
serde_json = "1"
serde_yaml = "=0.9.34"
sqlx = { version = "=0.8.6", default-features = false, features = ["runtime-tokio", "sqlite", "chrono"] }
tokio = { version = "1", features = ["full"] }
toml = "0.8"
tracing = "0.1"
urlencoding = "=2.1.3"
uuid = { version = "=1.29.0", features = ["v4"] }
