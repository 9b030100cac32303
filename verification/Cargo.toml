[package]
name = "thanatos"
version = "0.1.0"
edition = "2021"
publish = false

[dependencies]
crossbeam = "*"
eframe = { version = "*", default-features = false }
egui = "*"
macroquad = "*"
