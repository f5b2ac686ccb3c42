[package]
name = "midi_player"
version = "0.1.0"
edition = "2021"
publish = false

[dependencies]
midly = "=0.5.3"
chrono = "=0.4.45"
portable-atomic = { version = "=1.15.0", features = ["float"] }
rayon = "=1.12.0"
