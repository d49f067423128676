[package]
name = "mpd_lyricsd"
version = "0.1.0"
edition = "2021"
publish = false

[dependencies]
anyhow = "*"
mpd_client = "=1.4.1"
reqwest = { version = "=0.13.5", default-features = false, features = ["json", "query"] }
scraper = "=0.27.0"
serde = { version = "*", features = ["derive"] }
serde_json = "*"
tokio = { version = "*", features = ["rt-multi-thread", "macros", "net", "fs"] }
tracing = "*"
tracing-subscriber = { version = "*", features = ["env-filter"] }
universal-config = "=0.5.1"
