[package]
name = "bstream"
version = "0.1.0"
edition = "2021"
publish = false

[dependencies]
byteorder = "1"
num-traits = "0.2"
piston_window = "*"
