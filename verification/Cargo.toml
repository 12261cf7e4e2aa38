[package]
name = "bitrate_analyzer"
version = "0.1.0"
edition = "2021"
publish = false

[dependencies]
clap = { version = "*", features = ["derive"] }
csv = "*"
env_logger = "*"
num_cpus = "*"
rayon = "*"
serde = { version = "*", features = ["derive"] }
symphonia = { version = "*", features = ["mp3"] }
thiserror = "*"
walkdir = "*"
