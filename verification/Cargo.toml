[package]
name = "polymorpher"
version = "0.1.0"
edition = "2021"
publish = false

[dependencies]
euclid = "*"
kurbo = "*"
lyon_tessellation = "*"
skia-safe = "*"
tiny-skia-path = "*"
