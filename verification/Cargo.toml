[package]
name = "gran"
version = "0.1.0"
edition = "2021"
publish = false

[dependencies]
rand = "=0.9.5"
hound = "=3.5.1"
cpal = "=0.18.2"
rodio = { version = "=0.23.0", default-features = false, features = ["mp3"] }
