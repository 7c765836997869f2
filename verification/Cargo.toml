[package]
name = "aes67_rs"
version = "0.1.0"
edition = "2021"
publish = false

[dependencies]
regex = "1"
rtp-rs = "*"
sdp = "*"
socket2 = { version = "0.5", features = ["all"] }
tokio = { version = "1", features = ["full"] }
tokio-util = "*"
serde = { version = "1", features = ["derive"] }
serde_yaml = "*"
thiserror = "*"
miette = "*"
tracing = "*"
libc = "*"
clock-steering = "*"
pnet = "*"
rand = "*"
sap-rs = "*"
worterbuch-client = "*"
tosub = "*"
reqwest = { version = "*", default-features = false }
