[package]
name = "fmod_bank_decoder"
version = "0.1.0"
edition = "2021"
publish = false

[dependencies]
anyhow = "1"
byteorder = "1.5"
clap = { version = "4", features = ["derive"] }
eframe = { version = "0.35", default-features = false, features = ["default_fonts", "glow", "x11"] }
egui_extras = { version = "0.35", default-features = false }
hound = "3.5"
indicatif = "0.18"
memmap2 = "0.9"
num_cpus = "1"
rayon = "1"
rfd = { version = "0.15", default-features = false, features = ["xdg-portal", "async-std"] }
