[package]
name = "chips_display"
version = "0.1.0"
edition = "2021"
publish = false

[dependencies]
image = { version = "0.25", default-features = false, features = ["png"] }
serialport = { version = "4", default-features = false }
thiserror = "1"
fontdue = "0.9"
rand = "0.8"
crossbeam = "0.8"
once_cell = "1"
nvml-wrapper = "0.10"
