[package]
name = "rlisp"
version = "0.1.0"
edition = "2021"
publish = false

[dependencies]
clap = "=4.6.7"
meval = "=0.2.0"
