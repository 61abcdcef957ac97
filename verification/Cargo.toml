[package]
name = "app_libs"
version = "0.1.0"
edition = "2021"
publish = false

[dependencies]
ffxiv-crafting = "*"
micro_ndarray = "*"
num_cpus = "1"
rand = "0.8"
serde = { version = "1", features = ["derive"] }
