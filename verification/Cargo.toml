[package]
name = "swanling"
version = "0.12.0"
edition = "2021"
publish = false

[dependencies]
url = "2"
rand = "0.8"
num_cpus = "1"
