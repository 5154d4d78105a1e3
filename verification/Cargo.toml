[package]
name = "tilecap"
version = "0.1.0"
edition = "2021"
publish = false

[dependencies]
clap = { version = "4", features = ["derive"] }
libc = "0.2"
png = "0.17"
serde = { version = "1", features = ["derive"] }
toml = "0.8"
wayland-client = "0.31"
wayland-protocols-wlr = { version = "0.3", features = ["client"] }
x11rb = "0.13"
