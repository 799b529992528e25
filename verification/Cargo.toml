[package]
name = "rsbloom"
version = "0.1.0"
edition = "2021"
publish = false

[dependencies]
bit-vec = "=0.10.1"
fasthash = "=0.4.0"

[dev-dependencies]
rand = "=0.10.3"
