[package]
name = "strss"
version = "0.1.0"
edition = "2021"
publish = false

[dependencies]
anyhow = "1"
chrono = "0.4"
crossterm = "0.25"
html2text = "0.6"
reqwest = { version = "0.11", default-features = false, features = ["blocking"] }
rss = "2"
tui = "0.19"
