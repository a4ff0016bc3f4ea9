[package]
name = "shoota2"
version = "0.1.0"
edition = "2021"
publish = false

[dependencies]
ggez = "0.7"
glam = { version = "0.20", features = ["mint"] }
