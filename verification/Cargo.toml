[package]
name = "signaling_broker"
version = "0.1.0"
edition = "2021"
publish = false

[dependencies]
rand = "0.8"
anyhow = "1"
serde_json = "1"
querystring = "1"
urlencoding = "2"
