[package]
name = "rete_neurale_mlp"
version = "0.1.0"
edition = "2021"
publish = false

[dependencies]
nalgebra = "*"
rand = "*"
lazy_static = "*"
