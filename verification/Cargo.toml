[package]
name = "grooveanim"
version = "0.1.0"
edition = "2021"
publish = false

[dependencies]
fontdue = "*"
image = "*"
midi-msg = "*"
midir = "*"
minifb = "*"
serde = { version = "*", features = ["derive"] }
serde_json = "*"
