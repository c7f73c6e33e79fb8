[package]
name = "phtm"
version = "0.1.0"
edition = "2021"
publish = false

[dependencies]
pushr = "*"
zmq = { version = "*", features = ["vendored"] }
tokio = { version = "*", features = ["rt-multi-thread", "sync", "macros"] }
eyre = "*"
log = "*"
