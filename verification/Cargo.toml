[package]
name = "auto_drum"
version = "0.1.0"
edition = "2021"
publish = false

[dependencies]
rand = "0.8"
serde = { version = "1", features = ["derive"] }
serde_json = "1"
tokio = { version = "1", features = ["full"] }
tokio-timerfd = "*"
rppal = "*"
bluer = { version = "*", features = ["bluetoothd"] }
uuid = "1"
config = { version = "*", default-features = false, features = ["yaml"] }
