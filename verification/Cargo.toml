[package]
name = "xr_projection"
version = "0.1.0"
edition = "2021"
publish = false

[dependencies]
bevy = { version = "=0.11.3", default-features = false }
color-eyre = "=0.6.5"
openxr = { version = "=0.17.1", default-features = false, features = ["loaded"] }
tracing = "=0.1.44"
