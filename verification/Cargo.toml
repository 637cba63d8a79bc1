[package]
name = "hashmap_diff"
version = "0.1.0"
edition = "2021"
publish = false

[dependencies]
abstract-core = "=0.21.0"
abstract-interface = "=0.21.0"
anyhow = "=1.0.104"
clap = { version = "=4.6.7", features = ["derive"] }
cw-asset = "=3.1.1"
cw-orch = "=0.20.1"
dotenv = "=0.15.0"
env_logger = "=0.10.2"
log = "=0.4.34"
serde_json = "=1.0.154"
tokio = { version = "=1.54.1", features = ["rt-multi-thread"] }
