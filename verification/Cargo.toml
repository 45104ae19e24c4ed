[package]
name = "lockness"
version = "0.1.0"
edition = "2021"
publish = false

[dependencies]
rustix = { version = "1", features = ["thread"] }
arrayvec = "0.7"
bitflags = "2"
bon = "3"
