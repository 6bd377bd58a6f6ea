[package]
name = "executor"
version = "0.1.0"
edition = "2021"
publish = false

[dependencies]
rayon = "1"
crossbeam-channel = "0.5"
oneshot = "0.1"
futures-util = "0.3"

[dev-dependencies]
futures = "0.3"
