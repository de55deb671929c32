[package]
name = "rstiny_core"
version = "0.1.0"
edition = "2021"
publish = false

[dependencies]
log = "0.4"
embedded-io = "0.6"
virtio-drivers = "*"
