[package]
name = "synth"
version = "0.1.0"
edition = "2021"
publish = false

[dependencies]
midly = { version = "0.5", default-features = false, features = ["std"] }
midir = "0.9"
macroquad = { version = "0.4", default-features = false }
