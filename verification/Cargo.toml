[package]
name = "ntp_consensus"
version = "0.1.0"
edition = "2021"
publish = false

[dependencies]
anyhow = "*"
chrono = "*"
futures = "*"
rsntp = "*"
tokio = { version = "*", features = ["rt-multi-thread", "time"] }
