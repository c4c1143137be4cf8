[package]
name = "drbg_bench"
version = "0.1.0"
edition = "2021"
publish = false

[dependencies]
aes = "0.8"
blake3 = "1"
ctr = "0.9"
rand_chacha = "0.3"
rand_core = "0.6"
plotters = "0.3"
