[package]
name = "pis_code"
version = "0.1.0"
edition = "2021"
publish = false

[dependencies]
anyhow = "1"
crossterm = "0.27"
ratatui = "0.26"
regex = "1"
syntect = "5"
