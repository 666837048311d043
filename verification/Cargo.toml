[package]
name = "gridworld"
version = "0.1.0"
edition = "2021"
publish = false

[dependencies]
bevy = { version = "=0.17.3", default-features = false, features = ["std", "bevy_sprite"] }
crossterm = "=0.29.0"
noise = "=0.9.0"
rand = "=0.9.5"
