[package]
name = "project-mouse"
version = "0.1.0"
edition = "2021"
publish = false

[dependencies]
roxmltree = "*"
serde = { version = "1", features = ["derive"] }
serde_json = "1"
tracing = "0.1"
tracing-subscriber = { version = "0.3", features = ["env-filter", "fmt"] }
tracing-appender = "0.2"
