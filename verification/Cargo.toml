[package]
name = "backflow"
version = "0.1.0"
edition = "2021"
publish = false

[dependencies]
async-trait = "0.1"
axum = { version = "0.8", features = ["ws"] }
dirs = "*"
eyre = "0.6"
futures = "0.3"
futures-util = { version = "0.3", features = ["sink"] }
idevice = { version = "*", features = ["usbmuxd"] }
nix = { version = "*", features = ["user"] }
serde = { version = "1", features = ["derive"] }
serde_json = "1"
thiserror = "*"
tokio = { version = "1", features = ["full"] }
toml = "0.8"
tower-http = { version = "0.6", features = ["fs", "trace"] }
tracing = "0.1"
