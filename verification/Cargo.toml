[package]
name = "gpu-switcher"
version = "0.1.0"
edition = "2021"
publish = false

[dependencies]
clap = { version = "4", features = ["derive"] }
color-eyre = "0.6"
hex = "=0.4.3"
libc = "0.2"
minilsof = { version = "=0.1.4", features = ["async"] }
serde = { version = "1", features = ["derive"] }
serde_json = "1"
thiserror = "2"
tokio = { version = "1", features = ["full"] }
tracing = "0.1"
udev = "=0.9.3"
zbus = { version = "5", default-features = false, features = ["tokio"] }
