[package]
name = "abot"
version = "0.1.0"
edition = "2021"
publish = false

[dependencies]
anyhow = "1"
bytes = "1"
chrono = "0.4"
crossterm = "0.27"
dirs = "5"
futures = "0.3"
log = "0.4"
percent-encoding = "2"
pulldown-cmark = { version = "0.8", default-features = false }
ratatui = "0.26"
reqwest = { version = "0.11", default-features = false, features = ["json", "stream", "rustls-tls"] }
scraper = "*"
serde = { version = "1", features = ["derive"] }
serde_json = "1"
syntect = { version = "5", default-features = false, features = ["default-fancy"] }
thiserror = "1"
tokio = { version = "1", features = ["full"] }
toml = "0.8"
url = "2"
urlencoding = "2"
uuid = { version = "1", features = ["v4"] }
