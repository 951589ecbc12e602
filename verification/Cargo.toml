[package]
name = "spamwatch_api"
version = "0.1.0"
edition = "2021"
publish = false

[dependencies]
actix-web = { version = "=1.0.9", default-features = false }
chrono = "=0.4.19"
config = "=0.9.3"
dirs = "=2.0.2"
failure = "=0.1.8"
http = "=0.1.21"
lazy_static = "1.4"
nanoid = "=0.2.0"
postgres = { version = "=0.17.5", features = ["with-chrono-0_4"] }
postgres-types = { version = "=0.1.3", features = ["derive"] }
serde = { version = "1.0", features = ["derive"] }
serde_json = "1.0"
slog = "=2.8.2"
slog-async = "=2.8.0"
slog-term = "=2.8.1"
