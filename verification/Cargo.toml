[package]
name = "piano"
version = "0.1.0"
edition = "2021"
publish = false

[dependencies]
hound = "3"
num-traits = "0.2"
