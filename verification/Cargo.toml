[package]
name = "axdriver"
version = "0.1.0"
edition = "2021"
publish = false

[dependencies]
axdriver_base = "*"
axdriver_block = { version = "*", features = ["ramdisk"] }
