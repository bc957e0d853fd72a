[package]
name = "fetchpool"
version = "0.1.0"
edition = "2021"
publish = false

[dependencies]
scraper = "*"
reqwest = { version = "*", default-features = false, features = ["stream"] }
tokio = { version = "*", features = ["rt-multi-thread", "macros", "fs", "io-util", "sync"] }
futures-util = "*"
indicatif = "*"
clap = { version = "*", features = ["derive"] }
anyhow = "*"
