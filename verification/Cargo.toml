[package]
name = "renderinstance"
version = "0.1.0"
edition = "2021"
publish = false

[dependencies]
ash = "0.37"
cgmath = "0.18"
log = "0.4"
rand = "0.8"
vk-mem = "0.3"
