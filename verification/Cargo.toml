[package]
name = "mensa_bot"
version = "0.1.0"
edition = "2021"
publish = false

[dependencies]
anyhow = "=1.0.104"
chrono = "=0.4.45"
futures-util = "=0.3.34"
log = "=0.4.35"
reqwest = { version = "=0.13.5", features = ["json"] }
reqwest-websocket = "=0.6.0"
rusqlite = "=0.41.1"
serde = { version = "=1.0.229", features = ["derive"] }
serde_json = "=1.0.154"
# Not used by this code: teloxide-core depends on takecell, and takecell 0.1.2 needs a
# newer rustc than the toolchain that builds this crate.
takecell = "<0.1.2"
teloxide = "=0.17.0"
tokio = { version = "=1.54.1", features = ["macros", "rt-multi-thread", "sync", "time"] }
tokio-cron-scheduler = "=0.15.1"
uuid = "=1.29.0"
