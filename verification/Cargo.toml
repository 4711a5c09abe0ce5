[package]
name = "pyrlu"
version = "0.1.0"
edition = "2021"
publish = false

[dependencies]
amd = "=0.2.2"
rlu = { version = "=0.4.2", features = ["rayon"] }
num-complex = "=0.4.6"
