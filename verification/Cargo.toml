[package]
name = "daly_bms"
version = "0.1.0"
edition = "2021"
publish = false

[dependencies]
hex = "0.4"
tokio = { version = "1", features = ["rt-multi-thread", "macros", "time", "io-util", "sync"] }
tokio-serial = { version = "5", default-features = false }
clap = { version = "4", features = ["derive", "env"] }
serde = { version = "1", features = ["derive"] }
serde_json = "1"
chrono = "0.4"
anyhow = "1"
thiserror = "1"
tracing = "0.1"
tracing-subscriber = { version = "0.3", features = ["env-filter"] }
