[package]
name = "marie-c-compiler"
version = "0.3.1"
edition = "2021"
publish = false

[dependencies]
clap = { version = "4", features = ["derive"] }
