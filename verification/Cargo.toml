[package]
name = "blackbox_analyzer"
version = "1.0.0"
edition = "2021"
publish = false

[dependencies]
anyhow = "1"
byteorder = "1"
clap = { version = "4", features = ["derive"] }
plotters = "0.3"
