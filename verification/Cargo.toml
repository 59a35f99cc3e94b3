[package]
name = "fang"
version = "0.6.0"
edition = "2021"
publish = false

[dependencies]
serde = { version = "=1.0.229", features = ["derive"] }
serde_json = "=1.0.154"
tokio = { version = "=1.54.1", features = ["rt-multi-thread", "macros", "net", "io-util", "sync", "time", "signal"] }
log = "=0.4.35"
env_logger = "=0.11.11"
libc = "=0.2.191"
hidapi = { version = "=2.6.7", default-features = false, features = ["linux-native-basic-udev"] }
nvml-wrapper = "=0.13.0"
zbus = "=5.19.0"
