[package]
name = "ingot_core"
version = "0.1.0"
edition = "2021"
publish = false

[dependencies]
chrono = "0.4"
kamadak-exif = "*"
walkdir = "2"
rayon = "1"
crossbeam-channel = "0.5"
fast_image_resize = "5"
turbojpeg = "1"

[dev-dependencies]
tempfile = "3"
