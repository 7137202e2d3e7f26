[package]
name = "bl"
version = "0.1.0"
edition = "2021"
publish = false

[dependencies]
anyhow = "1"
crc = "3"
hex = "0.4"
serialport = { version = "4", default-features = false }
thiserror = "1"
