[package]
name = "rnav"
version = "0.1.0"
edition = "2021"
publish = false

[dependencies]
regex = "1"
chrono = "0.4"
rand = "0.8"
ratatui = "0.29"
crossterm = "0.28"
clap = { version = "4", features = ["derive"] }
color-eyre = "0.6"
num-format = "0.4"
memmap2 = "0.9"
tempfile = "3"
flate2 = "1"
zip = { version = "2", default-features = false, features = ["deflate"] }
thiserror = "2"
