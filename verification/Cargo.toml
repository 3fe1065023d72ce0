[package]
name = "murmur3_stream"
version = "0.1.0"
edition = "2021"
publish = false

[dependencies]
arrayvec = "*"

[dev-dependencies]
murmur3 = "*"
