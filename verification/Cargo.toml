[package]
name = "rekordcrate"
version = "0.1.0"
edition = "2021"
publish = false

[dependencies]
binrw = "*"
bpm-finder-tools = "*"
chrono = "0.4"
clap = { version = "4", features = ["derive"] }
cxx = "1"
lofty = "*"
modular-bitfield = "*"
realfft = "*"
symphonia = { version = "*", features = ["mp3"] }
