[package]
name = "volf"
version = "0.1.0"
edition = "2021"
publish = false

[dependencies]
hmac = "0.12"
sha1 = "0.10"
url = "2"
hyper = "0.10"
hyper-native-tls = "*"
json = "0.12"
serde = { version = "1", features = ["derive"] }
serde_derive = "1"
serde_json = "1"
clap = "2"
env_logger = "0.4"
log = "0.3"
