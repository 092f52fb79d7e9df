[package]
name = "mailroom"
version = "0.1.0"
edition = "2021"
publish = false

[dependencies]
anyhow = "=1.0.104"
axum = { version = "=0.7.9", features = ["multipart"] }
base64 = "=0.22.1"
chrono = { version = "=0.4.45", default-features = false, features = ["clock", "std", "serde"] }
config = { version = "=0.14.1", default-features = false, features = ["toml"] }
dotenvy = "=0.15.7"
mime_guess = "=2.0.5"
reqwest = { version = "=0.12.28", default-features = false, features = ["json", "multipart"] }
ron = "=0.8.1"
serde = { version = "=1.0.229", features = ["derive"] }
serde_json = "=1.0.154"
sha2 = "0.10"
tokio = { version = "=1.54.1", features = ["macros", "rt-multi-thread", "fs", "net"] }
toml = "=0.8.23"
tracing = "=0.1.44"
tracing-subscriber = { version = "=0.3.23", features = ["env-filter"] }
uuid = { version = "=1.29.0", features = ["v4", "serde"] }
walkdir = "=2.5.0"

[dev-dependencies]
tempfile = "=3.27.0"
