[package]
name = "timeline_media"
version = "0.1.0"
edition = "2021"
publish = false

[dependencies]
url = "2"
clap = "*"
egg-mode = "*"
futures = "0.3"
indicatif = "*"
reqwest = "*"
tokio = { version = "1", features = ["rt-multi-thread", "macros", "fs", "io-util"] }
