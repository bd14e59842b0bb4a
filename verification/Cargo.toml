[package]
name = "omni"
version = "0.1.0"
edition = "2021"
publish = false

[dependencies]
smallvec = "2.0.0-alpha.1"
