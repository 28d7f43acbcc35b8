[package]
name = "epd_driver"
version = "0.1.0"
edition = "2021"
publish = false

[dependencies]
spidev = "=0.7.1"
