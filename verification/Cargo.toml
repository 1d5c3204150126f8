[package]
name = "msp_link"
version = "0.1.0"
edition = "2021"
publish = false

[dependencies]
multiwii_serial_protocol_v2 = "*"
packed_struct = "*"
serialport = "*"
async-std = "*"
