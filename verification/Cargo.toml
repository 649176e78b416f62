[package]
name = "tulfs"
version = "0.1.0"
edition = "2021"
publish = false

[dependencies]
md5 = "*"
fuser = "*"
ssh2 = "*"
libc = "*"
