[package]
name = "sb3_value"
version = "0.1.0"
edition = "2021"
publish = false

[dependencies]
bytemuck = "*"
ecow = "=0.3.1"
libm = "*"
ryu-js = "=1.0.3"
