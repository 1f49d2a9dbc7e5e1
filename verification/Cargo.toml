[package]
name = "mcrs_protocol"
version = "0.1.0"
edition = "2021"
publish = false

[dependencies]
flate2 = "1"
serde_json = "1"
thiserror = "1"
hematite-nbt = "0.5"
