[package]
name = "tarako"
version = "0.1.0"
edition = "2021"
publish = false

[dependencies]
der = { version = "*", features = ["oid", "alloc"] }
libc = "0.2"
