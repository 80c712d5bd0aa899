[package]
name = "rp_pio_usb_host"
version = "0.1.0"
edition = "2021"
publish = false

[dependencies]
critical-section = "=1.2.0"
embassy-rp = { version = "=0.10.0", features = ["rp2040"] }
embassy-sync = "=0.8.0"
embassy-time = "=0.5.1"
embassy-usb-driver = "=0.2.2"
fixed = "=1.31.0"
pio = "=0.3.0"
rp-pac = { version = "=7.0.0", features = ["rp2040"] }
typenum = "=1.20.1"
