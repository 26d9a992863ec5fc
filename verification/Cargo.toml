[package]
name = "kva_hex_core"
version = "0.1.0"
edition = "2021"
publish = false

[dependencies]
num = "0.4"
godot = "0.2"
bitflags = "2"
