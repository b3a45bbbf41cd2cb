[package]
name = "ste_proxy"
version = "0.1.0"
edition = "2021"
publish = false

[dependencies]
byteorder = "*"
circbuf = "*"
ochenslab = "*"
mio = { version = "*", features = ["os-poll", "net"] }
log = "*"
chrono = "*"
simple-error = "*"
