[package]
name = "url_crawler"
version = "0.1.0"
edition = "2021"
publish = false

[dependencies]
crossbeam-queue = "*"
tokio = { version = "*", features = ["rt-multi-thread", "macros", "time", "sync", "net", "io-util"] }
clap = { version = "*", features = ["derive"] }
log = "*"
env_logger = "*"
