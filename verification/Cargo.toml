[package]
name = "kps"
version = "0.1.0"
edition = "2021"
publish = false

[dependencies]
crossbeam = "*"
jack = "0.8"
eframe = "0.19"
egui = "0.19"
