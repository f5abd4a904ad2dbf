[package]
name = "br41ndmg"
version = "0.1.0"
edition = "2021"
publish = false

[dependencies]
claxon = "0.4"
crossterm = "0.28"
hound = "3.5"
ratatui = "0.29"
rustfft = "6"
thiserror = "2"
