[package]
name = "klefki"
version = "0.1.0"
edition = "2021"
publish = false

[dependencies]
num = "=0.4.3"
num-bigint = "=0.4.8"

[dev-dependencies]
rand = "0.8"
