[package]
name = "create2crunch"
version = "0.1.0"
edition = "2021"
publish = false

[dependencies]
fs2 = "0.4"
hex = "0.3"
rand = "0.5"
rayon = "1"
tiny-keccak = "1.5"
