[package]
name = "emufight"
version = "0.1.0"
edition = "2021"
publish = false

[dependencies]
bincode = "=1.3.3"
env_logger = "=0.11.11"
flate2 = "=1.1.10"
ggrs = "=0.10.2"
iz80 = "=0.5.1"
log = "=0.4.35"
m68k = "=0.1.17"
rand = "=0.8.8"
sdl2 = { version = "=0.38.0", features = ["unsafe_textures"] }
serde = { version = "=1.0.229", features = ["derive"] }
serde_json = "=1.0.154"
ureq = "=2.12.1"
zip = { version = "=2.6.1", default-features = false, features = ["deflate"] }
