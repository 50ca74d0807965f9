[package]
name = "fast_log"
version = "0.1.0"
edition = "2021"
publish = false

[dependencies]
chrono = "0.4"
cogo = "0.1"
crossbeam = "0.8"
crossbeam-channel = "0.5"
log = { version = "0.4", features = ["std"] }
parking_lot = "0.12"
zip = { version = "0.6", default-features = false, features = ["deflate"] }
