[package]
name = "lan-scan-rs"
version = "0.1.0"
edition = "2021"
publish = false

[dependencies]
anyhow = "1"
axum = "0.7"
clap = { version = "4", features = ["derive"] }
if-addrs = "*"
ipnet = "2"
serde = { version = "1", features = ["derive"] }
serde_json = "1"
time = { version = "*", features = ["formatting"] }
tokio = { version = "1", features = ["full"] }
tokio-native-tls = "*"
tokio-util = "*"
tower-http = { version = "*", features = ["fs"] }
x509-parser = "*"
