[package]
name = "quicksupport"
version = "0.1.0"
edition = "2021"
publish = false

[dependencies]
anyhow = "=1.0.104"
bytes = "=1.12.1"
dirs-next = "=2.0.0"
env_logger = "=0.11.11"
hex = "=0.4.3"
local-ip-address = "=0.6.13"
log = "=0.4.35"
once_cell = "=1.21.4"
rand = "=0.8.8"
serde = { version = "=1.0.229", features = ["derive"] }
sha2 = "=0.10.9"
sodiumoxide = "=0.2.7"
tokio = { version = "=1.54.1", features = ["full"] }
uuid = { version = "=1.29.0", features = ["v4"] }
whoami = "=1.6.1"
