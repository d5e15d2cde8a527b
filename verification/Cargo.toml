[package]
name = "rtrs"
version = "0.1.0"
edition = "2021"
publish = false

[dependencies]
anyhow = "=1.0.104"
indicatif = "=0.17.11"
ndarray = "=0.16.1"
num-complex = "=0.4.6"
pyo3 = "0.20"
rayon = "=1.12.0"
serde = { version = "=1.0.229", features = ["derive"] }
serde_ignored = "=0.1.14"
serde_json = "=1.0.154"
