[package]
name = "audioinfo"
version = "0.1.0"
edition = "2021"
publish = false

[dependencies]
clap = { version = "=4.6.7", features = ["derive"] }
convert_case = "=0.12.0"
serde_json = "=1.0.151"
symphonia = "=0.5.5"
walkdir = "=2.5.0"
