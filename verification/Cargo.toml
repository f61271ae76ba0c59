[package]
name = "chip8_core"
version = "0.1.0"
edition = "2021"
publish = false

[dependencies]
byteorder = "1"
rand = "0.8"
clap = { version = "4", features = ["derive"] }
macroquad = "0.3"
egui = "0.21"
egui-macroquad = "0.15"
egui_file = "0.8"
pixels = "0.11"
winit = "0.27"
winit_input_helper = "0.13"
