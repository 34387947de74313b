[package]
name = "dirsift"
version = "0.1.0"
edition = "2021"
publish = false

[dependencies]
chrono = "0.4"
clap = { version = "4", features = ["derive"] }
color-print = "0.3"
size = "*"
string-patterns = "*"
walkdir = "2"
