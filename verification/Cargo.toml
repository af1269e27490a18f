[package]
name = "gateway_proxy"
version = "0.1.0"
edition = "2021"
publish = false

[dependencies]
hex = "=0.4.3"
crossbeam-channel = "=0.5.17"
diesel = { version = "=2.3.14", default-features = false, features = ["sqlite", "r2d2"] }
serialport = { version = "4", default-features = false }
