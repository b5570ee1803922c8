[package]
name = "image_render"
version = "1.0.0"
edition = "2021"
publish = false

[dependencies]
clap = "=2.34.0"
image = { version = "=0.25.10", default-features = false, features = ["bmp", "dds", "exr", "ff", "gif", "hdr", "ico", "jpeg", "png", "pnm", "qoi", "tga", "tiff", "webp"] }
terminal_size = "=0.4.4"

[dev-dependencies]
regex = "=1.13.1"
