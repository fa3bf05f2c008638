[package]
name = "display_tree"
version = "0.1.0"
edition = "2021"
publish = false

[dependencies]
serde = { version = "1", features = ["derive"] }
serde_json = "1"
smithay = { version = "*", default-features = false, features = ["wayland_frontend", "desktop"] }
wayland-server = "*"
wayland-protocols = { version = "*", features = ["server"] }
