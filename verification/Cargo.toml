[package]
name = "gazo"
version = "0.1.0"
edition = "2021"
publish = false

[dependencies]
resize = "*"
rgb = "*"
wayland-client = "*"
wayland-protocols = { version = "*", features = ["client", "unstable", "staging"] }
wayland-protocols-wlr = { version = "*", features = ["client"] }
nix = { version = "*", features = ["fs", "mman"] }
memmap2 = "*"
mtpng = "*"
clap = { version = "3", features = ["derive"] }
rqrr = "*"
url = "*"
open = "*"
tempfile = "*"
