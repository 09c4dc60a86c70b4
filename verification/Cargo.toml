[package]
name = "drop_root_caps"
version = "0.1.0"
edition = "2021"
publish = false

[dependencies]
ctor = "*"
libc = "*"
