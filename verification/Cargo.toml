[package]
name = "visual"
version = "0.1.0"
edition = "2021"
publish = false

[dependencies]
midly = "0.5"
ggez = "0.6"
kira = "0.5"
rlua = "0.17"
cgmath = { version = "0.18", features = ["mint"] }
derive_more = "0.99"
anyhow = "1"
log = "0.4"
simple_logger = "1"
spin_sleep = "1"
