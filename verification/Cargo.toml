[package]
name = "asm_buf"
version = "0.1.0"
edition = "2021"
publish = false

[dependencies]
libc = "*"
