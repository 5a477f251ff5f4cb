[package]
name = "cellfade"
version = "0.1.0"
edition = "2021"
publish = false

[dependencies]
rand = "0.9"
clap = { version = "4", features = ["derive"] }
crossterm = "0.29"
anyhow = "1"
