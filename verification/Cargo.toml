[package]
name = "physarum"
version = "0.1.0"
edition = "2021"
publish = false

[dependencies]
anyhow = "=1.0.104"
egui = "=0.37.0"
rand = "=0.9.5"
