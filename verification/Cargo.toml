[package]
name = "ncmdump"
version = "0.1.0"
edition = "2021"
publish = false

[dependencies]
base64 = "0.13"
byteorder = "1"
clap = "3"
rust-crypto = "0.2"
id3 = "1"
json = "0.12"
metaflac = "0.2"
tempfile = "3"
