[package]
name = "suru_dev"
version = "0.1.0"
edition = "2021"
publish = false

[dependencies]
scraper = "*"
anyhow = "*"
dotenvy = "*"
mongodb = "*"
reqwest = "*"
serde = { version = "*", features = ["derive"] }
serde_json = "*"
tokio = { version = "*", features = ["macros", "rt-multi-thread", "fs", "time"] }
tracing = "*"
tracing-subscriber = "*"
