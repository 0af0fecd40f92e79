[package]
name = "libuhdr"
version = "0.1.0"
edition = "2021"
publish = false

[dependencies]
zune-jpeg = "*"
roxmltree = "*"
lcms2 = "*"
ravif = { version = "*", default-features = false }
log = "*"
clap = { version = "*", features = ["derive"] }
fern = { version = "*", features = ["colored"] }
chrono = "*"
exr = "*"
libheif-rs = "*"
