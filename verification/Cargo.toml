[package]
name = "minicrust"
version = "0.1.0"
edition = "2021"
publish = false

[dependencies]
rayon = "=1.12.0"
softbuffer = { version = "=0.4.8", default-features = false, features = ["x11", "x11-dlopen"] }
winit = { version = "=0.30.13", default-features = false, features = ["rwh_06", "x11"] }
