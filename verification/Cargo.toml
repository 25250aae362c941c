[package]
name = "video_downloader"
version = "0.1.0"
edition = "2021"
rust-version = "1.95"
publish = false

[dependencies]
anyhow = "=1.0.104"
ctrlc = "=3.5.2"
dptree = "=0.5.1"
futures = "=0.3.34"
headless_chrome = "=1.0.22"
regex = "=1.13.1"
reqwest = { version = "=0.12.28", default-features = false, features = ["rustls-tls"] }
# teloxide needs takecell; 0.1.2 asks for a newer compiler than rust-version.
takecell = "<0.1.2"
teloxide = { version = "=0.17.0", default-features = false, features = ["rustls", "ctrlc_handler"] }
tokio = { version = "=1.54.1", features = ["full"] }
tracing = "=0.1.44"
tracing-subscriber = "=0.3.23"
