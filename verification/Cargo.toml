[package]
name = "fluxbridge"
version = "0.1.0"
edition = "2021"
publish = false

[dependencies]
crossbeam-channel = "=0.5.17"
ftdi-nusb = "0.2.0"
serialport = { version = "=4.10.1", default-features = false }
thiserror = "=2.0.21"
