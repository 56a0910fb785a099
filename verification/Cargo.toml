[package]
name = "slack_bridge"
version = "0.1.0"
edition = "2021"
publish = false

[dependencies]
chrono = "0.4"
url = "2"
serde_json = "1"
regex = "1"
