[package]
name = "knitchart"
version = "0.1.0"
edition = "2021"
publish = false

[dependencies]
css-color-parser = "=0.1.2"
piston2d-graphics = "=0.40.0"
graphics_buffer = "=0.7.7"
