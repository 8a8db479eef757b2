[package]
name = "fs_mutator"
version = "0.1.0"
edition = "2021"
publish = false

[dependencies]
libafl = { version = "=0.15.4", features = ["nautilus"] }
libafl_bolts = "=0.15.4"
serde = { version = "=1.0.229", features = ["derive"] }
serde_json = "=1.0.154"
libc = "=0.2.191"
