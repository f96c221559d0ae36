[package]
name = "contaddr"
version = "0.1.0"
edition = "2021"
publish = false

[dependencies]
libc = "0.2"
openssl = "0.10"
rustc-serialize = "0.3"
time = "0.1"

[dev-dependencies]
rand = "0.8"
