[package]
name = "mychip8"
version = "0.1.0"
edition = "2021"

[dependencies]
rand = "0.8"
sdl2 = "0.35"
structopt = "0.3"
