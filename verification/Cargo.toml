[package]
name = "aura_accent_sync"
version = "0.1.0"
edition = "2021"
publish = false

[dependencies]
anyhow = "=1.0.104"
clap = { version = "=4.6.7", features = ["derive"] }
env_logger = "=0.11.11"
gtk = "=0.18.2"
hex = "=0.4.3"
log = "=0.4.34"
openrgb2 = "=0.4.1"
tokio = { version = "=1.54.1", features = ["rt", "net", "time"] }
tray-icon = "=0.26.1"
zbus = "5"
