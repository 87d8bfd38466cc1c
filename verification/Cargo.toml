[package]
name = "predator_prey"
version = "0.1.0"
edition = "2021"
publish = false

[dependencies]
rand = "0.8"
config = { version = "0.14", default-features = false, features = ["toml"] }
egui = "0.29"
egui_plot = "0.29"
