[package]
name = "nerja"
version = "0.1.0"
edition = "2021"
publish = false

[dependencies]
blake3 = "*"
uuid = { version = "*", features = ["v4"] }
walkdir = "*"
imagesize = "*"
indicatif = "*"
