[package]
name = "cddns"
version = "0.1.0"
edition = "2021"
publish = false

[dependencies]
anyhow = "*"
chrono = "*"
clap = { version = "*", features = ["derive", "env"] }
cloudflare = "*"
dirs = "*"
reqwest = { version = "*", default-features = false }
serde = { version = "*", features = ["derive"] }
serde_json = "*"
tokio = { version = "*", features = ["rt-multi-thread", "macros", "net", "signal", "time", "io-util", "sync", "process"] }
tokio-cron-scheduler = "*"
toml = "*"
tracing = "*"
tracing-subscriber = { version = "*", features = ["env-filter"] }
