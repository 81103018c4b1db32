[package]
name = "adaptivegrain"
version = "0.1.0"
edition = "2021"
publish = false

[dependencies]
anyhow = "=1.0.104"
vapoursynth = "=0.4.0"
