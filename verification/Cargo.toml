[package]
name = "lemola"
version = "0.1.0"
edition = "2021"
publish = false

[dependencies]
bit_field = "=0.10.3"
xhci = "=0.9.2"
log = "=0.4.35"
spin = "=0.9.9"
usb-host = "0.1"
elf = { version = "0.7", default-features = false }
x86_64 = { version = "0.15", default-features = false, features = ["instructions"] }
crossbeam-queue = { version = "0.3", default-features = false, features = ["alloc"] }
