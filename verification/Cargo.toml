[package]
name = "ring_bcc"
version = "0.1.0"
edition = "2021"
publish = false

[dependencies]
anyhow = "1"
bytemuck = "=1.25.2"
directories-next = "2"
env_logger = { version = "0.11", default-features = false }
futures = "0.3"
iced = { version = "=0.14.0", default-features = false, features = ["image-without-codecs", "thread-pool", "tiny-skia", "tokio", "x11"] }
image = { version = "=0.25.10", default-features = false, features = ["png"] }
log = "0.4"
rfd = { version = "=0.15.4", default-features = false, features = ["tokio", "xdg-portal"] }
sdl3 = "=0.22.0"
serde = { version = "1", features = ["derive"] }
serde_json = "1"
tokio = { version = "1", features = ["full"] }
tokio-util = "0.7"
