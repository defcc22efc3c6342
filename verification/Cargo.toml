[package]
name = "nostd_async"
version = "0.6.1"
edition = "2021"
publish = false

[dependencies]
critical-section = { version = "1", features = ["std"] }
pin-project = "1"
cortex-m = "0.7"
avr-device = { version = "0.5", features = ["atmega328p"] }
