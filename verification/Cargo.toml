[package]
name = "ray_tracing"
version = "0.1.0"
edition = "2021"
publish = false

[dependencies]
fastrand-contrib = "=0.1.0"
image = { version = "=0.25.10", default-features = false, features = ["jpeg", "png", "gif", "bmp", "tga", "pnm", "ico", "hdr", "tiff", "webp"] }
rayon = "=1.12.0"
