[package]
name = "subpub_server"
version = "0.1.0"
edition = "2021"
publish = false

[dependencies]
anyhow = "1"
crossbeam-channel = "0.5"
dashmap = "6"
image = { version = "0.25", default-features = false, features = ["ico"] }
local-ip-address = "*"
log = "0.4"
log4rs = "1"
midir = "*"
serde = { version = "1", features = ["derive"] }
serde_json = "1"
tao = "*"
tokio = { version = "1", features = ["rt-multi-thread", "net", "time"] }
toml = "*"
tray-icon = "*"
