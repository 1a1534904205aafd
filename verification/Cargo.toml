[package]
name = "bisca"
version = "0.1.0"
edition = "2021"
publish = false

[dependencies]
rand = "=0.8.8"
axum = { version = "=0.7.9", features = ["ws"] }
tokio = { version = "=1.54.1", features = ["full"] }
futures = "=0.3.34"
serde = { version = "=1.0.229", features = ["derive"] }
serde_json = "=1.0.154"
uuid = { version = "=1.29.0", features = ["v4"] }
chrono = { version = "=0.4.45", features = ["serde"] }
rustls = "=0.21.12"
rustls-pemfile = "=1.0.4"
tokio-rustls = "=0.24.1"
tokio-stream = { version = "=0.1.19", features = ["net"] }
tower = "=0.4.13"
tower-http = { version = "=0.5.2", features = ["cors"] }
tracing-subscriber = "=0.3.23"
hyper = { version = "=1.12.0", features = ["http1", "server"] }
hyper-util = { version = "=0.1.21", features = ["tokio"] }
