[package]
name = "libretro_core"
version = "0.1.0"
edition = "2021"
publish = false

[dependencies]
glow = "=0.18.0"
