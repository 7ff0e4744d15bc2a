[package]
name = "arenae"
version = "0.2.0"
edition = "2021"
publish = false

[dependencies]
ndarray = "0.16"
scala-chromatica = "*"
egui = "0.29"
eframe = { version = "0.29", default-features = false, features = ["glow"] }
