[package]
name = "mandelzoom"
version = "0.1.0"
edition = "2021"
publish = false

[dependencies]
rug = "=1.16.0"
palette = "=0.5.0"
sfml = "=0.14.0"
structopt = "=0.3.26"
num_cpus = "=1.17.0"
