[package]
name = "typetune"
version = "0.1.0"
edition = "2021"
publish = false

[dependencies]
anyhow = "=1.0.104"
clap = { version = "=4.6.7", features = ["derive"] }
dirs = "=5.0.1"
evdev = "=0.13.2"
libc = "=0.2.191"
serde = { version = "=1.0.229", features = ["derive"] }
serde_json = "=1.0.154"
signal-hook = "=0.3.18"
thiserror = "=1.0.69"
tokio = { version = "=1.54.1", features = ["rt", "rt-multi-thread", "time", "macros"] }
toml = "=0.8.23"
tracing = "=0.1.44"
tracing-subscriber = { version = "=0.3.23", features = ["env-filter"] }
zbus = "=3.15.2"
gtk4 = "*"
libadwaita = "*"
glib = "*"
ksni = "*"
xkbcommon = "*"
