[package]
name = "touml"
version = "0.1.0"
edition = "2021"
publish = false

[dependencies]
glob = "0.3"
rustpython-parser = "0.3"
anyhow = "1"
clap = { version = "4", features = ["derive"] }
rayon = "1"
thiserror = "1"
walkdir = "2"
