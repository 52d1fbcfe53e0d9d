[package]
name = "gcode"
version = "0.1.0"
edition = "2021"
publish = false

[dependencies]
anyhow = "1"
nalgebra = "*"
roxmltree = "*"
structopt = "0.3"
