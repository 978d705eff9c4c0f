[package]
name = "cosmic_raster"
version = "0.1.0"
edition = "2021"
publish = false

[dependencies]
rand = "*"
glam = "*"
crossterm = "*"
