[package]
name = "ipsweep"
version = "0.1.0"
edition = "2021"
publish = false

[dependencies]
sqlite = "*"
colored = "*"
