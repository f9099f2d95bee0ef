[package]
name = "aw-watcher-agent"
version = "0.1.6"
edition = "2021"
publish = false

[dependencies]
anyhow = "1"
aw-client-rust = "*"
aw-models = "*"
axum = "*"
chrono = { version = "0.4", features = ["serde"] }
clap = { version = "4", features = ["derive"] }
serde = { version = "1", features = ["derive"] }
serde_json = "1"
tokio = { version = "1", features = ["macros", "net", "rt-multi-thread", "signal", "sync", "time"] }
tracing = "0.1"
tracing-subscriber = { version = "0.3", features = ["env-filter"] }
ts-rs = { version = "10", features = ["chrono-impl", "serde-json-impl"] }
