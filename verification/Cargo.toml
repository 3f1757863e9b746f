[package]
name = "bajzel_lib"
version = "0.1.0"
edition = "2021"
publish = false

[dependencies]
clap = "4"
nom = "7"
rand = "0.8"

[dev-dependencies]
itertools = "0.10"
