[package]
name = "curvemath"
version = "0.1.0"
edition = "2021"
publish = false

[dependencies]
ndarray = "=0.15.6"
plotly = { version = "0.12", features = ["kaleido"] }
