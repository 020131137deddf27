[package]
name = "ardl_socket"
version = "0.1.0"
edition = "2021"
publish = false

[dependencies]
bmrng = "*"
byteorder = "1"
rand = "0.8"
tokio = { version = "1", features = ["full"] }
