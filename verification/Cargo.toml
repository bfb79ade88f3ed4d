[package]
name = "scte_35"
version = "0.1.0"
edition = "2021"
publish = false

[dependencies]
anyhow = "1"
ascii = "1"
bitstream-io = "2"
