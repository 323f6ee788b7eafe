[package]
name = "lapidary"
version = "0.1.0"
edition = "2021"
publish = false

[dependencies]
blake3 = "=1.8.7"
serde = { version = "=1.0.229", features = ["derive"] }
serde_json = "=1.0.154"
anyhow = "=1.0.104"
clap = { version = "=4.6.7", features = ["derive"] }
tokio = { version = "=1.54.1", features = ["rt-multi-thread", "macros", "time"] }
reqwest = { version = "=0.12.28", default-features = false, features = ["json"] }
image = { version = "0.25", default-features = false, features = ["png", "jpeg", "webp"] }
url = "2"
