[package]
name = "shortlink"
version = "0.1.0"
edition = "2021"
publish = false

[dependencies]
url = "=2.5.8"
mime_guess = "=2.0.5"
axum = "=0.8.9"
axum-client-ip = "=1.3.1"
chrono = "=0.4.45"
chrono-tz = "=0.10.4"
dotenvy = "=0.15.7"
serde = { version = "=1.0.229", features = ["derive"] }
tokio = { version = "=1.53.2", features = ["full"] }
tokio-util = { version = "*", features = ["io"] }
tower-http = { version = "=0.7.1", features = ["fs", "cors", "trace", "normalize-path", "catch-panic", "validate-request", "auth"] }
tracing = "*"
tracing-subscriber = "*"
