[package]
name = "calmet"
version = "0.1.0"
edition = "2021"
publish = false

[dependencies]
clap = { version = "*", features = ["derive"] }
glob = "*"
fitsio = "*"
ndarray = "*"
num-complex = "*"
ndrustfft = "*"
