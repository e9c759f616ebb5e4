[package]
name = "newsroom"
version = "0.1.0"
edition = "2021"
publish = false

[dependencies]
rayon = "1"
reqwest = { version = "0.12", features = ["blocking"] }
rss = "2"
scraper = "*"
structopt = "0.3"
thiserror = "1"
