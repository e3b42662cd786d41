[package]
name = "automata"
version = "0.1.0"
edition = "2021"
publish = false

[dependencies]
macroquad = "*"
miniquad = "*"
clap = { version = "*", features = ["derive"] }
