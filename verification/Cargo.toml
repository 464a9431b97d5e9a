[package]
name = "tsdb_core"
version = "0.1.0"
edition = "2021"
publish = false

[dependencies]
crc32fast = "*"
rustc_apfloat = "*"
