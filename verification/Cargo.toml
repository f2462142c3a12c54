[package]
name = "keyscan"
version = "0.1.0"
edition = "2021"
publish = false

[dependencies]
bitcoin = "0.32"
hex = "0.4"
log = "0.4"
log4rs = "1"
num_cpus = "1"
rand = "0.8"
rayon = "1"
rusqlite = "0.31"
