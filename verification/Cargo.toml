[package]
name = "quartic_r1cs"
version = "0.1.0"
edition = "2021"
publish = false

[dependencies]
bellman = "0.1"
pairing = "0.14"
rand = "0.4"
