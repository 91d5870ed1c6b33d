[package]
name = "xsk_umem"
version = "0.1.0"
edition = "2021"
publish = false

[dependencies]
libc = "0.2"
nix = "0.26"
rand = "0.8"
tempfile = "3"
tokio = { version = "1", features = ["macros", "rt-multi-thread", "net"] }
lazy_static = "1"
