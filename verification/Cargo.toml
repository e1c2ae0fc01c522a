[package]
name = "trading_help"
version = "0.4.0"
edition = "2021"
publish = false

[dependencies]
time = "0.3"
serde = { version = "1", features = ["derive"] }
serde_json = "1"
log = "0.4"
tokio = { version = "1", features = ["rt-multi-thread", "macros", "time", "sync"] }
reqwest = { version = "0.12", features = ["json"] }
rss = "2"
keyring = "3"
yahoo_finance_api = "2.4"
async-trait = "0.1"
