[package]
name = "tile_layout"
version = "0.1.0"
edition = "2021"
publish = false

[dependencies]
cubecl = { version = "=0.10.0", default-features = false }
cubek-std = { version = "=0.2.0", default-features = false }
