[package]
name = "datatui"
version = "0.1.0"
edition = "2021"
publish = false

[dependencies]
crossterm = "=0.29.0"
nu-plugin = "=0.114.1"
nu-protocol = "=0.114.1"
ratatui = "=0.30.2"
serde = { version = "=1.0.229", features = ["derive"] }
typetag = "=0.2.23"
