[package]
name = "kmeans_colors"
version = "0.1.0"
edition = "2021"
publish = false

[dependencies]
rand = "0.9"
rand_chacha = "0.9"
image = "0.25"
palette = "0.7"
structopt = "0.3"
fxhash = "0.2"
