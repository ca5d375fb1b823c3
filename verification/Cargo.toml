[package]
name = "rascii"
version = "0.1.0"
edition = "2021"
publish = false

[dependencies]
image = { version = "=0.21.3", default-features = false, features = ["gif_codec", "jpeg", "ico", "png_codec", "pnm", "tga", "webp", "bmp", "hdr", "dxt"] }
structopt = "=0.3.26"
termcolor = "=1.4.1"
