[package]
name = "clustercut"
version = "0.1.0"
edition = "2021"
publish = false

[dependencies]
base64 = "0.22"
chacha20poly1305 = "0.10"
spake2 = "0.4"
rand = "0.8"
names = { version = "*", default-features = false }
uuid = { version = "1", features = ["v4"] }
ipnetwork = { version = "*", default-features = false }
serde = { version = "1", features = ["derive"] }
serde_json = "1"
tokio = { version = "1", features = ["full"] }
quinn = "0.11"
rustls = "0.23"
rcgen = "*"
mdns-sd = "*"
hostname = "*"
local-ip-address = "*"
clap = { version = "4", features = ["derive"] }
tracing = "0.1"
tracing-subscriber = { version = "0.3", features = ["env-filter"] }
tracing-appender = "0.2"
futures = "0.3"
url = "2"
percent-encoding = "2"
