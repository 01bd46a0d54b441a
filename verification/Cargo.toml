[package]
name = "typst_world"
version = "0.1.0"
edition = "2021"
publish = false

[dependencies]
typst = "=0.11.1"
typst-pdf = "=0.11.1"
comemo = "=0.4.0"
siphasher = "=0.3.11"
same-file = "=1.0.6"
walkdir = "=2.5.0"
memmap2 = "=0.9.11"
dirs = "=5.0.1"

[dev-dependencies]
typst-assets = { version = "=0.11.1", features = ["fonts"] }
