[package]
name = "tasklist"
version = "0.1.0"
edition = "2021"
publish = false

[dependencies]
chrono = "*"
clap = { version = "*", features = ["derive"] }
colored = "*"
crossterm = "*"
fs2 = "*"
ratatui = "*"
tabled = "*"
tempfile = "*"
terminal_size = "*"
