[package]
name = "henon"
version = "0.1.0"
edition = "2021"
publish = false

[dependencies]
fast_image_resize = "5"
image = { version = "0.25", default-features = false, features = ["png"] }
clap = "4"
log = "0.4"
env_logger = "0.11"
humantime = "2"
rayon = "1"
