[package]
name = "mastermind"
version = "0.1.0"
edition = "2021"
publish = false

[dependencies]
rand = "0.4"
rand_derive = "0.3"
term-painter = "0.2"
