[package]
name = "pulsemon"
version = "0.1.0"
edition = "2021"
publish = false

[dependencies]
anyhow = "1"
clap = { version = "4", features = ["derive"] }
crossterm = "0.28"
ratatui = "0.29"
sysinfo = "0.33"
nvml-wrapper = "0.10"
