[package]
name = "lanshare"
version = "0.1.0"
edition = "2021"
publish = false

[dependencies]
qrcode-generator = "=4.1.9"
base64 = "=0.22.1"
local-ip-address = "=0.6.13"
actix-web = "=4.18.1"
actix-files = "=0.7.2"
actix-multipart = "=0.8.5"
tera = "=1.20.1"
include_dir = "=0.7.4"
lazy_static = "=1.5.1"
env_logger = "=0.11.11"
log = "=0.4.34"
serde = { version = "=1.0.229", features = ["derive"] }
