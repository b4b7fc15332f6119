[package]
name = "stasis"
version = "0.1.0"
edition = "2021"
publish = false

[dependencies]
regex = "=1.13.1"
serde_json = "=1.0.151"
tokio = { version = "=1.53.2", features = ["full"] }
zbus = "=5.19.0"
zvariant = "*"
futures = "0.3"
futures-util = "0.3"
clap = { version = "=4.6.7", features = ["derive"] }
dirs = "*"
eyre = "0.6"
once_cell = "1"
chrono = "=0.4.45"
mpris = "2"
procfs = "=0.18.0"
libc = "0.2"
wayland-client = "=0.31.15"
wayland-protocols = { version = "=0.31.2", features = ["client", "staging", "unstable"] }
rune-cfg = "*"
