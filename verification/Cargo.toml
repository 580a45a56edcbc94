[package]
name = "kak_markup"
version = "0.1.0"
edition = "2021"
publish = false

[dependencies]
pulldown-cmark = "0.8"
libc = "0.2"
rand = "0.8"
whoami = "1"
