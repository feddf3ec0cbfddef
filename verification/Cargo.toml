[package]
name = "audioscope"
version = "0.1.0"
edition = "2021"
publish = false

[dependencies]
glium = "0.32"
num = "0.3"
portaudio = "0.7"
rustfft = "4"
toml = "0.5"
