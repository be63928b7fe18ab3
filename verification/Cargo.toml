[package]
name = "rs_snake"
version = "0.1.0"
edition = "2021"
publish = false

[dependencies]
crossterm = "0.27"
rand = "0.8"
rand_xorshift = "0.3"
