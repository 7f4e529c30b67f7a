[package]
name = "cco"
version = "0.1.0"
edition = "2021"
publish = false

[dependencies]
clap = { version = "4", features = ["derive"] }
crossterm = "0.25"
miette = "5"
serde = { version = "1", features = ["derive"] }
shellexpand = "3"
thiserror = "1"
toml = "0.8"
tui = "0.19"
