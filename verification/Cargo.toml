[package]
name = "music_sorter"
version = "0.1.0"
edition = "2021"
publish = false

[dependencies]
audiotags = "*"
clap = { version = "*", features = ["derive"] }
pathdiff = "*"
walkdir = "*"
