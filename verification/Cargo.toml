[package]
name = "chip_8_emu"
version = "0.1.0"
edition = "2021"
publish = false

[dependencies]
rand = "0.8"
anyhow = "1"
clap = { version = "4", features = ["derive"] }
log = "0.4"
simple_logger = "4"
