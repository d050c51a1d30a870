[package]
name = "leap_synth"
version = "0.1.0"
edition = "2021"
publish = false

[dependencies]
rtrb = "=0.3.5"
cpal = "=0.15.3"
symphonia = { version = "=0.5.5", default-features = false, features = ["mp3"] }
vizia = { version = "0.3", default-features = false, features = ["winit", "x11"] }
