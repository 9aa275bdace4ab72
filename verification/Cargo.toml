[package]
name = "map_tiles"
version = "0.1.0"
edition = "2021"
publish = false

[dependencies]
image = "0.23"
tokio = { version = "1", features = ["rt-multi-thread", "sync", "time", "fs", "macros"] }
async-trait = "0.1"
maptiler-cloud = "*"
rain_viewer = "*"
