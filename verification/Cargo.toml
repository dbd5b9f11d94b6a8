[package]
name = "registration_opencl"
version = "0.1.0"
edition = "2021"
publish = false

[dependencies]
anyhow = "1"
ndarray = "0.15"
ndarray-linalg = "0.16"
ocl = "0.19"
pcd-rs = { version = "*", features = ["derive"] }
