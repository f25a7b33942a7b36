[package]
name = "saimod"
version = "0.1.0"
edition = "2021"
publish = false

[dependencies]
rand = "0.8"
rayon = "1"
anyhow = "1"
serde = { version = "1", features = ["derive"] }
toml = "0.8"
plotters = { version = "0.3", default-features = false, features = ["bitmap_backend", "bitmap_encoder", "line_series", "histogram"] }
