[package]
name = "kolibri_skin"
version = "0.1.0"
edition = "2021"
publish = false

[dependencies]
byteorder = "1"
macroquad = "0.4"
