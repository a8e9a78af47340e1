[package]
name = "cephylas"
version = "0.1.0"
edition = "2021"
publish = false

[dependencies]
json = "*"
libc = "*"
