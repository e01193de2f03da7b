[package]
name = "noti"
version = "0.1.0"
edition = "2021"
publish = false

[dependencies]
unic-segment = "=0.9.0"
html-escape = "=0.2.15"
chrono = "=0.4.45"
humantime = "=2.4.0"
serde = { version = "=1.0.229", features = ["derive"] }
toml = "=0.8.23"
clap = { version = "=4.6.7", features = ["derive"] }
zbus = "=5.19.0"
anyhow = "=1.0.104"
indexmap = "=2.14.2"
shellexpand = "*"
glob = "*"
