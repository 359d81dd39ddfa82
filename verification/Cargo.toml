[package]
name = "rgigasync"
version = "1.0.0"
edition = "2021"
publish = false

[dependencies]
clap = "4"
dotenv = "0.15"
rayon = "1"
tempfile = "3"
walkdir = "2"
