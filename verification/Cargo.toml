[package]
name = "xsk-core"
version = "0.1.0"
edition = "2021"
publish = false

[dependencies]
cfg-if = "1"
libc = "0.2"
libxdp-sys = "*"
