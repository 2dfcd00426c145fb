[package]
name = "placement_center"
version = "0.1.0"
edition = "2021"
publish = false

[dependencies]
axum = "=0.8.9"
bincode = "=1.3.3"
clap = { version = "=4.6.7", features = ["derive"] }
dashmap = "=6.2.1"
log = "=0.4.34"
log4rs = "=1.4.0"
mobc = "=0.9.0"
prost = "*"
regex = "=1.13.1"
serde = { version = "=1.0.229", features = ["derive"] }
serde_json = "=1.0.154"
serde_yaml = "=0.9.34"
thiserror = "=2.0.21"
tokio = { version = "=1.54.1", features = ["full"] }
toml = "=1.1.8"
tonic = "=0.14.6"
tracing = "=0.1.44"
