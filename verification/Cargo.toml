[package]
name = "redtake"
version = "0.1.0"
edition = "2021"
publish = false

[dependencies]
anyhow = "=1.0.104"
base64 = "=0.13.1"
clap = { version = "=3.2.25", features = ["derive"] }
headless_chrome = "=0.9.0"
kdam = "=0.3.0"
regex = "=1.13.1"
reqwest = { version = "=0.11.27", features = ["blocking", "json"] }
serde = { version = "=1.0.229", features = ["derive"] }
serde_json = "=1.0.154"
toml = "=0.5.11"
