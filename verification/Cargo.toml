[package]
name = "clips"
version = "0.1.0"
edition = "2021"
publish = false

[dependencies]
byteorder = "1"
bytes = "0.4"
futures = "0.1"
protobuf = "2"
tokio = "0.1"
tokio-tcp = "0.1"
