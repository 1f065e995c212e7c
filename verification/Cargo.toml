[package]
name = "neurosim"
version = "0.1.0"
edition = "2021"
publish = false

[dependencies]
plotly = "*"
rand = "0.8"
