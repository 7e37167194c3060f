[package]
name = "pcsc_tester"
version = "0.1.0"
edition = "2021"
publish = false

[dependencies]
hex = "0.4"
chrono = { version = "0.4", default-features = false, features = ["std", "clock", "serde"] }
serde = { version = "1", features = ["derive"] }
serde_json = "1"
pcsc = "2"
clap = { version = "4", features = ["derive"] }
log = "0.4"
env_logger = "*"
