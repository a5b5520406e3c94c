[package]
name = "lares"
version = "0.1.0"
edition = "2021"
publish = false

[dependencies]
anyhow = "=1.0.104"
async-std = { version = "=1.13.2", features = ["attributes"] }
feed-rs = "=3.0.0"
prettytable-rs = { version = "=0.10.0", default-features = false }
serde = { version = "=1.0.229", features = ["derive"] }
serde_json = "=1.0.154"
structopt = "=0.3.26"
surf = "=2.3.2"
