[package]
name = "markovian"
version = "0.2.0"
edition = "2021"
publish = false

[dependencies]
rand = "=0.8.5"
rand_pcg = "=0.3.1"
rand_distr = "=0.4.3"
petgraph = "0.6"
ndarray = "0.15"
