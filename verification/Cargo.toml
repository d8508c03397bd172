[package]
name = "rubric-comment-queue"
version = "0.1.0"
edition = "2021"
publish = false

[dependencies]
axum = "=0.8.9"
chrono = "=0.4.45"
reqwest = { version = "=0.12.28", default-features = false, features = ["json", "rustls-tls"] }
serde = { version = "=1.0.229", features = ["derive"] }
serde_json = "=1.0.154"
sha2 = "=0.10.9"
sqlx = { version = "=0.8.6", default-features = false, features = ["runtime-tokio", "sqlite", "migrate"] }
thiserror = "=2.0.21"
tokio = { version = "=1.54.1", features = ["macros", "rt-multi-thread", "net", "signal", "time"] }
tower_governor = "=0.8.0"
tower-http = { version = "=0.6.11", features = ["compression-gzip", "fs", "set-header", "trace"] }
tracing = "=0.1.44"
tracing-subscriber = { version = "=0.3.23", features = ["json", "env-filter"] }
