[package]
name = "stun_client"
version = "0.1.0"
edition = "2021"
publish = false

[dependencies]
rand = "0.8"
thiserror = "1"
futures = "0.3"
async-std = "1"
async-macros = "*"
pnet = "*"
