[package]
name = "lx16a"
version = "0.1.0"
edition = "2021"
publish = false

[dependencies]
byteorder = "1"
