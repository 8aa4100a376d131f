[package]
name = "rust_net_protocols"
version = "0.1.0"
edition = "2021"
publish = false

[dependencies]
byteorder = "1"
bytes = "0.5"
colored = "1.9"
futures = "0.3"
log = "0.4"
rand = "0.7"
time = "0.1"
tokio = { version = "0.2", features = ["full"] }
