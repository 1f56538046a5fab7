[package]
name = "icarus"
version = "0.1.0"
edition = "2021"
publish = false

[dependencies]
heapless = "=0.7.17"
ahrs = { version = "=0.8.0", features = ["field_access"] }
nalgebra = "=0.34.2"
anyhow = "=1.0.104"
clap = { version = "=4.6.7", features = ["derive"] }
