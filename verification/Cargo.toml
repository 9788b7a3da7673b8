[package]
name = "rsheet"
version = "0.1.0"
edition = "2021"
publish = false

[dependencies]
rsheet_lib = "=0.2.0"
ortalib = "=0.1.0"
rand = "=0.8.8"
rand_chacha = "=0.3.1"
clap = { version = "=4.6.7", features = ["derive"] }
itertools = "=0.15.0"
serde = { version = "=1.0.229", features = ["derive"] }
serde_yaml = "=0.9.34"
ron = "=0.12.2"
bmp = "=0.5.0"
