[package]
name = "cfd_rs"
version = "0.1.0"
edition = "2021"
publish = false

[dependencies]
hashbrown = "=0.17.1"
serde = { version = "=1.0.229", features = ["derive"] }
thiserror = "=2.0.21"
nalgebra = { version = "=0.33.3", features = ["serde-serialize"] }
nalgebra-sparse = "=0.10.0"
nalgebra-sparse-linalg = "=0.1.10"
log = "=0.4.35"
plotters = { version = "=0.3.7", default-features = false, features = ["bitmap_backend", "bitmap_encoder", "colormaps", "full_palette", "all_series", "all_elements"] }
