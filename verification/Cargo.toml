[package]
name = "rsetlin"
version = "0.1.0"
edition = "2021"
publish = false

[dependencies]
anyhow = "1"
pyo3 = "0.19"
rand = "0.8"
rayon = "1"
tokenizers = { version = "0.13", default-features = false, features = ["onig"] }
