[package]
name = "xous_services"
version = "0.1.0"
edition = "2021"
publish = false

[dependencies]
byteorder = "1"
log = "0.4"
smoltcp = "=0.7.5"
