[package]
name = "mc_networking"
version = "0.1.0"
edition = "2021"
publish = false

[dependencies]
flate2 = "=1.1.10"
hematite-nbt = "=0.5.2"
uuid = { version = "=1.29.0", features = ["v4", "v3"] }
serde = { version = "=1.0.229", features = ["derive"] }
serde_json = "=1.0.154"
tokio = { version = "=1.54.1", features = ["full"] }
flume = "=0.12.0"
log = "=0.4.35"
rand = "=0.8.8"
thiserror = "=2.0.21"
openssl = "=0.10.82"
ahash = "0.8"
dashmap = "5"
