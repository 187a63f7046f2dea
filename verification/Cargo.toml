[package]
name = "pgn_planes"
version = "0.1.0"
edition = "2021"
publish = false

[dependencies]
rschess = "*"
