[package]
name = "tunes"
version = "0.1.0"
edition = "2021"
publish = false

[dependencies]
anyhow = "=1.0.104"
cpal = "=0.18.2"
crossterm = "=0.25.0"
ringbuf = "=0.4.8"
symphonia = { version = "=0.5.5", features = ["mp3"] }
tui = "=0.19.0"
walkdir = "=2.5.0"
