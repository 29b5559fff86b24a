[package]
name = "bloomfilter"
version = "0.1.0"
edition = "2021"
publish = false

[dependencies]
bit-vec = "*"
num_cpus = "*"

[dev-dependencies]
rand = "0.4"
