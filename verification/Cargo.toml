[package]
name = "logstats"
version = "0.1.0"
edition = "2021"
publish = false

[dependencies]
steamid-ng = "=3.0.0"
clap = { version = "=4.6.7", features = ["derive"] }
serde = { version = "=1.0.229", features = ["derive"] }
reqwest = { version = "=0.13.5", default-features = false, features = ["json", "query"] }
tokio = { version = "=1.53.2", features = ["rt-multi-thread", "macros", "time"] }
futures = "=0.3.34"
indicatif = "=0.18.6"
