[package]
name = "raytracer"
version = "0.1.0"
edition = "2021"
publish = false

[dependencies]
rand = "=0.7.3"
const_soft_float = "=0.1.4"
rustc_apfloat = "=0.2.3"
