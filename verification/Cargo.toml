[package]
name = "dungeon_dj"
version = "0.1.0"
edition = "2021"
publish = false

[dependencies]
macroquad = "0.4"
