[package]
name = "serialport_hci"
version = "0.1.0"
edition = "2021"
publish = false

[dependencies]
serialport = { version = "=4.10.1", default-features = false }
bluetooth-hci = "=0.1.0"
nb = "=0.1.3"
