[package]
name = "tracer"
version = "0.1.0"
edition = "2021"
publish = false

[dependencies]
rand = "=0.10.3"
rayon = "=1.12.0"
minifb = "=0.29.0"
obj-rs = "*"
