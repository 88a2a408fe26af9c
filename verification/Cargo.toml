[package]
name = "vec_fuzz"
version = "0.1.0"
edition = "2021"
publish = false

[dependencies]
smallvec = "=1.6.0"
simple-slab = "=0.3.2"
