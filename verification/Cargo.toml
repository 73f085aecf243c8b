[package]
name = "kerf_adjuster_logic"
version = "0.1.0"
edition = "2021"
publish = false

[dependencies]
dxf = "*"
nalgebra = "*"
