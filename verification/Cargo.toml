[package]
name = "kintaro"
version = "0.1.0"
edition = "2021"
publish = false

[dependencies]
hex = "0.4"
indexmap = "1"
rand = "0.8"
regex = "1"
