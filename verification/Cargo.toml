[package]
name = "road7"
version = "0.1.0"
edition = "2021"
publish = false

[dependencies]
ammonia = "3"
base64 = "0.21"
config = "0.11"
dashmap = "5"
http = "0.2"
hyper = { version = "0.14", features = ["full"] }
hyper-tls = "0.5"
jsonwebtoken = "8"
md5 = "0.7"
prometheus = "0.13"
rand = "0.8"
regex = "1"
ring = "0.16"
serde = { version = "1", features = ["derive"] }
serde_json = "1"
thiserror = "1"
tokio = { version = "1", features = ["full"] }
tracing = "0.1"
tracing-appender = "0.2"
tracing-subscriber = "0.3"
uuid = { version = "1", features = ["v4"] }
