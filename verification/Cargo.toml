[package]
name = "pt"
version = "0.1.0"
edition = "2021"
publish = false

[dependencies]
anyhow = "=1.0.104"
oorandom = "=11.1.5"
png = "=0.18.1"
rayon = "=1.12.0"
ultraviolet = "=0.10.0"
