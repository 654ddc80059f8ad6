[package]
name = "ergohaven"
version = "0.1.0"
edition = "2021"
publish = false

[dependencies]
heapless = "=0.8.0"
embassy-time = { version = "=0.4.0", features = ["std", "generic-queue-8"] }
embedded-graphics = "=0.8.2"
u8g2-fonts = { version = "=0.6.0", features = ["embedded_graphics_textstyle"] }
serde = { version = "=1.0.229", default-features = false, features = ["derive"] }
postcard = { version = "=1.1.3", features = ["experimental-derive"] }
trouble-host = "=0.8.0"
