[package]
name = "sandsim"
version = "0.1.0"
edition = "2021"
publish = false

[dependencies]
rlua = "0.19"
vulkano = "0.33"
winit = "0.28"
png = "0.17"
