[package]
name = "ap_connection"
version = "0.1.0"
edition = "2021"
publish = false

[dependencies]
shannon = "0.2"
hmac = "0.12"
sha1 = "0.10"
num-bigint = "0.4"
rand = "0.8"
futures = "0.1"
tokio-core = "0.1"
tokio-io = "0.1"
bytes = "0.4"
protobuf = "2"
