[package]
name = "nuclei"
version = "0.4.4"
edition = "2021"
publish = false

[dependencies]
futures = "=0.3.34"
lever = "=0.1.4"
libc = "=0.2.191"
socket2 = { version = "=0.3.19", features = ["pair", "unix"] }
once_cell = "=1.21.4"
async-global-executor = "=2.4.1"
pin-utils = "=0.1.1"
rustix-uring = "=0.6.0"
crossbeam-channel = "0.5"
