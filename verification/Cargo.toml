[package]
name = "electrum_benchmark"
version = "0.1.0"
edition = "2021"
publish = false

[dependencies]
bdk_electrum = "*"
chrono = "*"
clap = { version = "*", features = ["derive"] }
csv = "*"
serde = { version = "*", features = ["derive"] }
