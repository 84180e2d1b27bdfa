[package]
name = "quincy"
version = "0.1.0"
edition = "2021"
publish = false

[dependencies]
anyhow = "1"
argon2 = { version = "0.5", features = ["std"] }
bincode = "2"
bytes = "1"
dashmap = "5"
etherparse = "0.13"
jemallocator = "0.5"
quinn = "0.10"
tokio = { version = "1", features = ["full"] }
tokio-tun = "*"
tracing = "0.1"
