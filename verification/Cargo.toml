[package]
name = "zebra_devkit"
version = "0.1.0"
edition = "2021"
publish = false

[dependencies]
chrono = { version = "0.4", default-features = false, features = ["clock", "std"] }
crossbeam-channel = "0.5"
futures = "0.3"
hex = "0.4"
humantime = "2"
rand = "0.8"
ripemd = "0.1"
secp256k1 = "0.29"
serde = { version = "1", features = ["derive"] }
serde_json = "1"
sha2 = "0.10"
thiserror = "2"
tokio = { version = "1", features = ["sync", "time"] }
tracing = "0.1"
