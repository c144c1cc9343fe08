[package]
name = "tweet_fetcher"
version = "0.1.0"
edition = "2021"
publish = false

[dependencies]
serde_json = "1"
reqwest = { version = "0.12", default-features = false }
url = "2"
once_cell = "1"
