[package]
name = "rzmq"
version = "0.1.0"
edition = "2021"
publish = false

[dependencies]
async-trait = "*"
bytes = "*"
dashmap = "*"
fibre = "*"
futures = "*"
libc = "*"
once_cell = "*"
parking_lot = "*"
socket2 = { version = "*", features = ["all"] }
tokio = { version = "*", features = ["full"] }
tracing = "*"
