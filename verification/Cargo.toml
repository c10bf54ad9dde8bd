[package]
name = "thetos_rc_demo"
version = "0.1.0"
edition = "2021"
publish = false

[dependencies]
embedded-alloc = "*"
