[package]
name = "avail_light"
version = "0.1.0"
edition = "2021"
publish = false

[dependencies]
num_cpus = "1"
rand = "0.8"
serde = { version = "1", features = ["derive"] }
threadpool = "1"
