[package]
name = "sutty"
version = "0.1.0"
edition = "2021"
publish = false

[dependencies]
aes-gcm = "=0.10.3"
sha2 = "=0.10.9"
base64 = "=0.22.1"
rand = "=0.8.8"
anyhow = "1"
serde = { version = "1", features = ["derive"] }
serde_json = "1"
dirs = "*"
whoami = "1"
crossterm = "0.28"
ratatui = "0.29"
vt100 = "0.15"
tokio = { version = "1", features = ["full"] }
russh = "*"
async-trait = "0.1"
clap = { version = "4", features = ["derive"] }
env_logger = { version = "0.11", default-features = false }
log = "0.4"
egui = "0.31"
