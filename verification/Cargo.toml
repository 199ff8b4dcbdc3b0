[package]
name = "fif"
version = "0.1.0"
edition = "2021"
publish = false

[dependencies]
regex = "1"
clap = { version = "4", features = ["derive"] }
crossbeam-channel = "0.5"
tokio = { version = "1", features = ["macros", "rt-multi-thread"] }
