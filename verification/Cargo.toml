[package]
name = "roguemax"
version = "0.1.0"
edition = "2021"
publish = false

[dependencies]
rand = "0.3.9"
tcod = "0.15"
