[package]
name = "rewatch"
version = "0.1.0"
edition = "2021"
publish = false

[dependencies]
ahash = "0.8"
anyhow = "1"
blake3 = "1"
clap = { version = "4", features = ["derive"] }
clap-verbosity-flag = "*"
ctrlc = "3"
env_logger = "*"
futures = "0.3"
futures-timer = "3"
log = "0.4"
notify = "*"
rayon = "1"
regex = "1"
serde = { version = "1", features = ["derive"] }
serde_json = "1"
sysinfo = "0.29"
