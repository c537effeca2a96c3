[package]
name = "xan"
version = "0.1.0"
edition = "2021"
publish = false

[dependencies]
csv = "1"
regex = "1"
colored = "2"
numfmt = "1"
unicode-width = "0.1"
