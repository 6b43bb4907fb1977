[package]
name = "maxwell_demon"
version = "0.1.0"
edition = "2021"
publish = false

[dependencies]
eframe = { version = "0.22", default-features = false, features = ["persistence"] }
egui = "0.22"
rand = "0.8"
rand_distr = "0.4"
serde = { version = "1", features = ["derive"] }
