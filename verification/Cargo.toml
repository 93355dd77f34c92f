[package]
name = "chatsounds_plugin"
version = "0.1.0"
edition = "2021"
publish = false

[dependencies]
rand = "0.8"
parking_lot = "0.12"
lazy_static = "1"
detour = "*"
classicube-sys = "*"
