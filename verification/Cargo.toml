[package]
name = "correctness_fuzzer"
version = "0.1.0"
edition = "2021"
publish = false

[dependencies]
libafl = { version = "=0.16.1", features = ["nautilus"] }
libafl_bolts = "=0.16.1"
serde_json = "=1.0.151"
serde = { version = "=1.0.229", features = ["derive"] }
clap = { version = "=4.6.7", features = ["derive"] }
libc = "=0.2.190"
