[package]
name = "codedebt"
version = "0.1.0"
edition = "2021"
publish = false

[dependencies]
anyhow = "1"
chrono = { version = "0.4", default-features = false, features = ["clock", "std", "serde"] }
clap = { version = "4", features = ["derive"] }
colored = "2"
crossterm = "0.27"
env_logger = "0.11"
git2 = { version = "0.19", default-features = false }
glob = "0.3"
ignore = "0.4"
log = "0.4"
notify = "6"
regex = "1"
serde = { version = "1", features = ["derive"] }
serde_json = "1"
