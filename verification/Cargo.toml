[package]
name = "cloudbbq"
version = "0.1.0"
edition = "2021"
publish = false

[dependencies]
bluez-async = "*"
futures = "*"
log = "*"
thiserror = "*"
tokio = { version = "*", features = ["macros", "rt-multi-thread", "time"] }
