[package]
name = "rotor"
version = "0.1.0"
edition = "2021"
publish = false

[dependencies]
log = "0.4"
mio = "0.6"
netbuf = "*"
slab = "0.1"
