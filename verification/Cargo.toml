[package]
name = "du_analog_inputs"
version = "0.1.0"
edition = "2021"
publish = false

[dependencies]
config = "0.13"
enigo = "0.1"
flume = "0.11"
humantime = "2"
keyboard_query = "0.1"
sdl2 = "0.35"
sdl2-sys = "0.35"
serde = { version = "1", features = ["derive"] }
serde_with = "3"
spin_sleep = "=1.1.1"
toml = "0.5"
