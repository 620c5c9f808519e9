[package]
name = "quadrature"
version = "0.1.0"
edition = "2021"
publish = false

[dependencies]
plotters = { version = "0.3", default-features = false, features = ["svg_backend", "line_series"] }
statrs = "0.17"
