[package]
name = "fieldnotes"
version = "0.1.2"
edition = "2021"
publish = false

[dependencies]
base64 = "0.22"
ring = "0.17"
hex = "0.4"
rand = "0.8"
percent-encoding = "2"
os_info = "3"
serde = { version = "1", features = ["derive"] }
serde_json = "1"
rmp-serde = "1"
serde_yaml = "0.9"
log = "0.4"
