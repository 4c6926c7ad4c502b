[package]
name = "imprintor"
version = "0.1.0"
edition = "2021"
publish = false

[dependencies]
zune-inflate = "=0.2.54"
time = "=0.3.55"
tar = "=0.4.46"
ureq = "=3.4.2"
rustler = { version = "=0.38.0", features = ["derive"] }
typst = "=0.15.1"
typst-kit = { version = "=0.15.1", features = ["scan-fonts"] }
typst-layout = "=0.15.1"
typst-pdf = "=0.15.1"
