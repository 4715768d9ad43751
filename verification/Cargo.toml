[package]
name = "signai"
version = "0.1.0"
edition = "2021"
publish = false

[dependencies]
image = { version = "=0.24.9", default-features = false, features = ["png", "jpeg", "bmp"] }
walkdir = "=2.5.0"
csv = "=1.4.0"
rand = "=0.8.8"
nalgebra = { version = "=0.32.6", features = ["serde-serialize"] }
ndarray = "=0.15.6"
serde = { version = "=1.0.229", features = ["derive"] }
serde_json = "=1.0.154"
bincode = "=1.3.3"
plotters = { version = "=0.3.7", default-features = false, features = ["bitmap_backend", "bitmap_encoder", "line_series"] }
