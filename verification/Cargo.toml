[package]
name = "synth"
version = "0.1.0"
edition = "2021"

[dependencies]
rodio = "0.17"
device_query = "1"
