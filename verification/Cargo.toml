[package]
name = "image_analysis"
version = "0.1.0"
edition = "2021"
publish = false

[dependencies]
base64 = "0.21"
image = "0.24"
imageproc = "0.23"
photon-rs = "0.3.2"
rand = "0.8"
