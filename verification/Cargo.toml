[package]
name = "tsc_trace"
version = "0.1.0"
edition = "2021"
publish = false

[dependencies]
bytemuck = "1"
config = { version = "*", default-features = false, features = ["json5"] }
sdl2 = { version = "*", features = ["ttf"] }
serde = { version = "1", features = ["derive"] }
