[package]
name = "service_registry"
version = "0.1.0"
edition = "2021"
publish = false

[dependencies]
axum = "=0.8.9"
axum-prometheus = "=0.10.1"
chrono = { version = "=0.4.45", features = ["serde"] }
sentry = { version = "=0.49.3", default-features = false, features = ["debug-images"] }
serde = { version = "=1.0.229", features = ["derive"] }
sqlx = { version = "=0.9.0", default-features = false, features = ["runtime-tokio", "postgres", "chrono"] }
tokio = { version = "=1.53.2", features = ["rt-multi-thread", "net", "macros"] }
tower-http = { version = "=0.7.1", features = ["trace"] }
tracing = "=0.1.44"
tracing-subscriber = { version = "=0.3.23", features = ["fmt"] }
