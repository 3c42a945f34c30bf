[package]
name = "pathtracer"
version = "0.1.0"
edition = "2021"
publish = false

[dependencies]
nalgebra = "0.29"
png = "0.16"
rand = "0.8"
rand_distr = "0.4"
rand_pcg = "0.3"
rayon = "1"
structopt = "0.3"
