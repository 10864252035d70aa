[package]
name = "candelora-metal-kernels"
version = "0.1.0"
edition = "2021"
publish = false

[dependencies]
candle-core = "*"
candle-metal-kernels = "*"
half = "*"
objc2-metal = "*"
