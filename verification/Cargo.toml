[package]
name = "rye"
version = "0.1.0"
edition = "2021"
publish = false

[dependencies]
getopts = "0.2"
termcolor = "1"
anyhow = "1"
futures-executor = "0.3"
futures-util = "0.3"
futures-channel = "0.3"
maybe-unwind = "*"
expected = "*"
