[package]
name = "autoindex_listing"
version = "0.1.0"
edition = "2021"
publish = false

[dependencies]
anyhow = "1"
camino = "1"
more-wallpapers = "*"
rand = "0.9"
reqwest = "0.12"
scraper = "*"
time = { version = "0.3", features = ["parsing"] }
tokio = { version = "1", features = ["macros", "rt-multi-thread", "time"] }
url = "2"
