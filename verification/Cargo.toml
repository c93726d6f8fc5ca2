[package]
name = "udp_chat"
version = "0.1.0"
edition = "2021"
publish = false

[dependencies]
anyhow = "1"
bincode = "1"
clap = { version = "4", features = ["derive"] }
lib-wc = "*"
serde = { version = "1", features = ["derive"] }
shutdown-async = "*"
sockit = "*"
tokio = { version = "1", features = ["full"] }
tokio-utils = "*"
tub = "*"
