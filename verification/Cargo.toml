[package]
name = "qrust"
version = "0.1.0"
edition = "2021"
publish = false

[dependencies]
bitvec = "0.19"
encoding = "0.2"
image = { version = "0.23", default-features = false, features = ["png"] }
structopt = "0.3"
