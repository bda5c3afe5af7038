[package]
name = "vex_override"
version = "0.1.0"
edition = "2021"
publish = false

[dependencies]
bitter = "*"
bytemuck = "*"
cobs = "*"
fixed = "*"
shrewnit = "*"
