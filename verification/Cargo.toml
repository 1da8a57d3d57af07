[package]
name = "kernel_vmem"
version = "0.1.0"
edition = "2021"
publish = false

[dependencies]
bitfield-struct = "*"
thiserror = "*"
