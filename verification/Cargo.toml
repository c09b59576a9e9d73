[package]
name = "tirc"
version = "0.1.0"
edition = "2021"
publish = false

[dependencies]
anyhow = "1"
chrono = "0.4"
dashmap = "5"
egui = "0.19"
env_logger = "0.9"
flume = "0.10"
futures-util = "0.3"
iced = "0.5"
iced_native = "0.6"
log = "0.4"
once_cell = "1"
serde = "1"
serde_derive = "1"
serde_json = "1"
tokio = { version = "1", features = ["full"] }
tokio-native-tls = "0.3"
tokio-stream = { version = "0.1", features = ["sync"] }
whoami = "1"
