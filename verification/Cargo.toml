[package]
name = "ksysguard_sensord"
version = "0.1.0"
edition = "2021"
publish = false

[dependencies]
clap = { version = "=3.2.25", features = ["derive"] }
configparser = "=3.3.0"
thread-control = "*"
