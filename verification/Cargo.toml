[package]
name = "command_supervisor"
version = "0.1.0"
edition = "2021"
publish = false

[dependencies]
anyhow = "1"
tokio = { version = "1", features = ["rt", "macros", "time", "fs", "io-std", "io-util"] }
