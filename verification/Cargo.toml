[package]
name = "foobar"
version = "0.1.0"
edition = "2021"
publish = false

[dependencies]
anyhow = "*"
clap = { version = "*", features = ["derive"] }
metrics = "*"
metrics-exporter-prometheus = "*"
metrics-process = "*"
sqlx = { version = "*", features = ["runtime-tokio", "postgres"] }
tokio = { version = "*", features = ["rt-multi-thread", "macros", "time"] }
tracing = "*"
tracing-appender = "*"
tracing-loki = "*"
tracing-subscriber = { version = "*", features = ["env-filter"] }
url = "*"
