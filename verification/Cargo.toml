[package]
name = "ecommerce"
version = "0.1.0"
edition = "2021"
publish = false

[dependencies]
chrono = { version = "=0.4.45", features = ["serde"] }
scrypt = { version = "=0.11.0", default-features = false }
rand = "=0.9.5"
subtle = "=2.6.1"
uuid = { version = "=1.29.0", features = ["v4"] }
serde = { version = "=1.0.229", features = ["derive"] }
serde_json = "=1.0.154"
axum = "=0.8.9"
tokio = { version = "=1.54.1", features = ["rt-multi-thread", "macros", "net", "signal"] }
tower-http = { version = "=0.6.11", features = ["catch-panic", "limit", "timeout", "trace"] }
tracing = "=0.1.44"
tracing-subscriber = { version = "=0.3.23", features = ["env-filter"] }
sqlx = { version = "=0.8.6", default-features = false, features = ["runtime-tokio", "sqlite", "chrono", "macros"] }
async-trait = "=0.1.92"
thiserror = "=2.0.21"

[dev-dependencies]
nutype = { version = "0.7", features = ["serde"] }
