[package]
name = "pacview"
version = "0.1.0"
edition = "2021"
publish = false

[dependencies]
size = "=0.6.0"
heck = "=0.5.0"
itertools = "=0.15.0"
bytesize = "=1.3.3"
serde = { version = "=1.0.229", features = ["derive"] }
walkdir = "=2.5.0"
pacmanconf = "*"
