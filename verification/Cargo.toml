[package]
name = "libbpf_cargo"
version = "0.1.0"
edition = "2021"
publish = false

[dependencies]
anyhow = "1"
libbpf-sys = "*"
memmap = "*"
