[package]
name = "mc_bot"
version = "0.1.0"
edition = "2021"
publish = false

[dependencies]
flate2 = "*"
mio = { version = "*", features = ["os-poll", "net"] }
num_cpus = "*"
