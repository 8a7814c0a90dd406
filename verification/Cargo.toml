[package]
name = "mailbackup_core"
version = "0.1.0"
edition = "2021"
publish = false

[dependencies]
csv = "1"
sha2 = "0.10"
hex = "0.4"
aes-gcm = "0.10"
dirs = "5"
chrono = "0.4"
mail-parser = "0.9"
serde = { version = "1", features = ["derive"] }
serde_json = "1"
serde_yaml = "0.9"
uuid = { version = "1", features = ["v4"] }
anyhow = "1"
thiserror = "1"
tracing = "0.1"
tracing-subscriber = { version = "0.3", features = ["env-filter"] }
tokio = { version = "1", features = ["full"] }
axum = "0.7"
tower-http = { version = "0.5", features = ["cors", "trace"] }
mime_guess = "2"
rusqlite = { version = "0.31", features = ["bundled"] }
clap = { version = "4", features = ["derive"] }
futures-util = "0.3"
async-imap = { version = "0.10", default-features = false, features = ["runtime-tokio"] }
tokio-rustls = { version = "0.26", default-features = false, features = ["ring", "logging", "tls12"] }
rustls-pki-types = "1"
webpki-roots = "0.26"
tokio-cron-scheduler = "*"
keyring = "3"
