[package]
name = "mdir"
version = "0.1.0"
edition = "2021"
publish = false

[dependencies]
chrono = "0.4"
crossterm = "0.28"
libc = "0.2"
ratatui = "0.29"
unicode-width = "0.2"
