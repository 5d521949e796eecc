[package]
name = "notice_feed"
version = "0.1.0"
edition = "2021"
publish = false

[dependencies]
chrono = "0.4"
htmlescape = "0.3"
reqwest = { version = "0.12", features = ["blocking"] }
scraper = "*"
