[package]
name = "co_reactor"
version = "0.1.0"
edition = "2021"
publish = false

[dependencies]
smallvec = "1"
libc = "0.2"
nix = { version = "*", features = ["event", "fs", "net"] }
net2 = "0.2"
