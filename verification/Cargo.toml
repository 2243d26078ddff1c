[package]
name = "bruteforce"
version = "0.1.0"
edition = "2021"
publish = false

[dependencies]
serde_urlencoded = "0.7"
clap = { version = "4", features = ["derive"] }
futures = "0.3"
prettytable-rs = "0.10"
rayon = "1"
reqwest = { version = "0.12", default-features = false }
tokio = { version = "1", features = ["rt-multi-thread", "macros"] }
