[package]
name = "rhubarb"
version = "0.1.0"
edition = "2021"
publish = false

[dependencies]
base64ct = { version = "=1.8.3", features = ["alloc"] }
sha1 = "=0.10.7"
rand = "=0.9.5"
