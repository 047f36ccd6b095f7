[package]
name = "organizar_xml"
version = "0.1.0"
edition = "2021"
publish = false

[dependencies]
chrono = "0.4"
clap = { version = "4", features = ["derive"] }
dirs = "4"
rayon = "1.7"
tempfile = "3"
walkdir = "2"
zip = "0.6"
