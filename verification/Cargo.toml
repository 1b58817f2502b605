[package]
name = "midnight_proofs"
version = "0.1.0"
edition = "2021"
publish = false

[dependencies]
blake2b_simd = "1"
ff = "0.13"
group = "0.13"
libc = "0.2"
memmap2 = "0.9"
midnight-curves = "*"
rayon = "1"
tempfile = "3"
tracing = "0.1"
