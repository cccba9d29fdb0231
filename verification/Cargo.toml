[package]
name = "cri_archive_lib"
version = "0.1.0"
edition = "2021"
publish = false

[dependencies]
console = "*"
crossterm = "*"
indicatif = "*"
rayon = "*"
