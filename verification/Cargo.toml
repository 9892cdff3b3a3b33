[package]
name = "palit_client"
version = "0.1.0"
edition = "2021"
publish = false

[dependencies]
braille = "*"
termion = "1"
xmltree = "0.10"
hound = "3"
libc = "0.2"
wavefile = "*"
itertools = "*"
