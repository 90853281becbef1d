[package]
name = "polysynth"
version = "0.1.0"
edition = "2021"
publish = false

[dependencies]
rand = "0.8"
wide = "0.7"
parking_lot = "0.12"
device_query = "2"
crossterm = "0.27"
