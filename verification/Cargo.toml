[package]
name = "fuzzy"
version = "0.1.0"
edition = "2021"
publish = false

[dependencies]
async-trait = "0.1"
env_logger = "0.10"
log = "0.4"
reqwest = "0.11"
serde = { version = "1", features = ["derive"] }
serde_yaml = "0.9"
structopt = "0.3"
tokio = { version = "1", features = ["full"] }
url = "2"
uuid = { version = "1", features = ["v4"] }
