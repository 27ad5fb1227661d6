[package]
name = "omt_atlas"
version = "0.1.0"
edition = "2021"
publish = false

[dependencies]
byteorder = "1"
clap = "2"
crc = "1"
glob = "0.3"
image = { version = "0.22", default-features = false, features = ["png_codec"] }
regex = "1"
yaml-rust = "0.4"
