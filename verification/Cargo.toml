[package]
name = "tg_unblock"
version = "0.5.0"
edition = "2021"
publish = false

[dependencies]
aes = "0.8"
ctr = "0.9"
cipher = "0.4"
subtle = "2"
log = "0.4"
env_logger = "0.11"
clap = { version = "4", features = ["derive"] }
tokio = { version = "1", features = ["full"] }
tokio-tungstenite = { version = "0.24", features = ["native-tls"] }
tungstenite = "0.24"
futures-util = "0.3"
native-tls = "0.2"
