[package]
name = "feg_case_studies"
version = "0.1.0"
edition = "2021"
publish = false

[dependencies]
mshio = "=0.4.2"
nalgebra = "=0.35.0"
rand = "=0.8.8"
rand_distr = "=0.4.3"
simplicial = "=0.2.0"
plotters = { version = "=0.3.7", default-features = false, features = ["bitmap_backend", "bitmap_encoder", "line_series"] }
