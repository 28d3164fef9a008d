[package]
name = "faultline"
version = "0.1.0"
edition = "2021"
publish = false

[dependencies]
anyhow = "=1.0.104"
aya = "=0.14.0"
aya-build = "=0.2.0"
aya-ebpf = "=0.2.1"
clap = { version = "=4.6.7", features = ["derive"] }
crossterm = "=0.29.0"
env_logger = "=0.11.11"
ipnet = { version = "=2.12.2", features = ["serde"] }
libc = "=0.2.191"
log = "=0.4.35"
ratatui = "=0.30.2"
rmp-serde = "=1.3.1"
serde = { version = "=1.0.229", features = ["derive"] }
serde_json = "=1.0.154"
tokio = { version = "=1.54.1", features = ["full"] }
yaml_serde = "=0.10.7"
