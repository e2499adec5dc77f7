[package]
name = "osc_send"
version = "0.1.0"
edition = "2021"
publish = false

[dependencies]
rosc = "*"
clap = { version = "4", features = ["derive"] }
