[package]
name = "graph_layout"
version = "0.1.0"
edition = "2021"

[dependencies]
petgraph = "=0.8.3"
fixed = "*"
cordic = "*"

[dev-dependencies]
glam = "=0.34.1"
