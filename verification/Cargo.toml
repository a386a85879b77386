[package]
name = "img2webp_hq"
version = "0.1.0"
edition = "2021"
publish = false

[dependencies]
bytemuck = "=1.25.2"
clap = { version = "=4.6.7", features = ["derive"] }
fast_image_resize = "=5.5.0"
image = { version = "=0.25.10", default-features = false, features = ["jpeg", "png", "webp"] }
jpegli = "=0.1.0"
lcms2 = "=6.2.0"
rayon = "=1.12.0"
webpx = { version = "=0.4.1", features = ["icc"] }
