[package]
name = "daedra"
version = "0.1.0"
edition = "2021"
publish = false

[dependencies]
chrono = "=0.4.45"
url = "=2.5.8"
urlencoding = "=2.1.3"
html2md = "=0.2.17"
scraper = "=0.27.0"
serde = { version = "=1.0.229", features = ["derive"] }
serde_json = "=1.0.151"
futures = "=0.3.34"
tokio = { version = "=1.53.2", features = ["rt-multi-thread", "macros", "io-std", "io-util", "time"] }
reqwest = { version = "=0.13.5", default-features = false, features = ["gzip", "brotli", "form"] }
