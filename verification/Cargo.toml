[package]
name = "iced_macroquad"
version = "0.1.0"
edition = "2021"
publish = false

[dependencies]
bytemuck = "1"
tiny-skia = "0.11"
iced_core = "0.13"
iced_graphics = "0.13"
iced_tiny_skia = "0.13"
iced_runtime = "0.13"
iced_widget = "0.13"
macroquad = "0.4"
miniquad = "0.4"
