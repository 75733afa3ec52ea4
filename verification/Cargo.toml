[package]
name = "instant_replay"
version = "0.1.0"
edition = "2021"
publish = false

[dependencies]
hyper = { version = "=0.14.32", features = ["client", "http1", "tcp"] }
hyper-tls = "=0.5.0"
tokio = { version = "1", features = ["rt", "net", "time"] }
postgres = "0.19"
