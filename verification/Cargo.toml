[package]
name = "mem_ipc"
version = "0.1.0"
edition = "2021"
publish = false

[dependencies]
nix = { version = "=0.26.4", features = ["mqueue", "mman", "fs"] }
