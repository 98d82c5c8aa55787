[package]
name = "lolraft"
version = "0.1.0"
edition = "2021"
publish = false

[dependencies]
anyhow = "=1.0.104"
bincode = "=1.3.3"
flume = "=0.12.0"
oneshot = { version = "=0.2.1", features = ["async", "std"] }
redb = "=4.3.0"
tokio = { version = "=1.53.2", features = ["rt", "rt-multi-thread", "sync", "time", "macros"] }
