[package]
name = "chust"
version = "0.1.0"
edition = "2021"
publish = false

[dependencies]
ab_glyph = "*"
anyhow = "*"
clap = { version = "*", default-features = false, features = ["derive", "std", "help", "usage"] }
enigo = { version = "*", default-features = false, features = ["x11rb"] }
imageproc = { version = "*", default-features = false }
ndarray = "*"
nix = { version = "*", features = ["mman", "fs"] }
ort = "=2.0.0-rc.13"
wayland-client = "*"
wayland-protocols-wlr = { version = "*", features = ["client"] }
