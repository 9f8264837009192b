[package]
name = "photos"
version = "0.1.0"
edition = "2021"
publish = false

[dependencies]
tokio = { version = "1", features = ["rt-multi-thread", "sync", "time", "macros"] }
tokio-util = "0.7"
hdbscan = "*"
anyhow = "1"
thiserror = "*"
tracing = "0.1"
futures = "0.3"
async-trait = "0.1"
image = { version = "*", default-features = false, features = ["png", "jpeg"] }
