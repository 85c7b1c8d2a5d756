[package]
name = "font_metrics"
version = "0.1.0"
edition = "2021"
publish = false

[dependencies]
clap = "=4.6.7"
image = { version = "=0.25.10", default-features = false, features = ["png"] }
lopdf = "=0.42.0"
pdf-extract = "=0.12.1"
rusttype = "=0.7.9"
tempdir = "=0.3.7"
