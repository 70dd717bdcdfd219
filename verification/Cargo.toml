[package]
name = "mtp_rs"
version = "0.1.0"
edition = "2021"
publish = false

[dependencies]
nusb = "0.2"
clap = { version = "4", features = ["derive"] }
serde = { version = "1", features = ["derive"] }
serde_json = "1"
tokio = { version = "1", features = ["rt", "rt-multi-thread", "macros", "fs", "io-util", "signal", "sync", "time"] }
bytes = "1"
futures = "0.3"
futures-timer = "3"
notify = "*"
async-trait = "0.1"
thiserror = "*"
