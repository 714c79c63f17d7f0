[package]
name = "statusbar"
version = "0.1.0"
edition = "2021"
publish = false

[dependencies]
chrono = "0.4"
chrono-tz = "0.10"
futures = "0.3"
tokio = { version = "1", features = ["rt", "macros", "time", "signal", "process", "fs", "io-util"] }
x11rb = "0.13"
