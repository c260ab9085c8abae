[package]
name = "clicky"
version = "0.1.0"
edition = "2021"
publish = false

[dependencies]
actix-cors = "*"
actix-http = "*"
actix-web = "*"
anyhow = "*"
env_logger = "*"
futures-util = "*"
log = "*"
memmap = "*"
redis = "*"
thiserror = "*"
