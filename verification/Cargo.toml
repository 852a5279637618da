[package]
name = "identity_core"
version = "0.1.0"
edition = "2021"
publish = false

[dependencies]
diesel = { version = "2", features = ["postgres", "r2d2"] }
r2d2 = "0.8"
