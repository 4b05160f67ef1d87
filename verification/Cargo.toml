[package]
name = "tinywad"
version = "0.1.0"
edition = "2021"
publish = false

[dependencies]
regex = "1"
image = { version = "0.24", default-features = false, features = ["png"] }
structopt = "0.3"
thiserror = "1"
