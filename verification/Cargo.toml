[package]
name = "opencensus_trace"
version = "0.1.0"
edition = "2021"
publish = false

[dependencies]
byteorder = "=1.5.0"
io-context = "=0.2.0"
lazy_static = "=1.5.1"
rand_core = "=0.6.4"
rand_xoshiro = "=0.6.0"

[dev-dependencies]
regex = "=1.13.1"
