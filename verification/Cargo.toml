[package]
name = "vm_rs"
version = "0.1.0"
edition = "2021"
publish = false

[dependencies]
anyhow = "*"
chrono = "*"
clap = { version = "*", features = ["derive"] }
home = "*"
rust-ini = "*"
shlex = "*"
tempfile = "*"
tokio = { version = "*", features = ["process", "io-util", "macros", "rt-multi-thread"] }
