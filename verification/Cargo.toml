[package]
name = "canrun"
version = "0.1.0"
edition = "2021"
publish = false

[dependencies]
im = "15"
im-rc = "15"

[dev-dependencies]
itertools = "*"
