[package]
name = "speedtest_exporter"
version = "0.1.0"
edition = "2021"
publish = false

[dependencies]
axum = "0.8"
prometheus = "*"
serde = { version = "1", features = ["derive"] }
serde_json = "1"
tokio = { version = "1", features = ["macros", "rt-multi-thread", "net", "time"] }
tracing = "0.1"
tracing-subscriber = { version = "0.3", features = ["env-filter"] }
