[package]
name = "nibari"
version = "0.1.0"
edition = "2021"
publish = false

[dependencies]
anyhow = "1"
calloop = "*"
calloop-wayland-source = "*"
chrono = { version = "0.4", default-features = false, features = ["clock", "std"] }
cosmic-text = "*"
freedesktop-icons = "*"
libc = "0.2"
log = { version = "0.4", features = ["std"] }
niri-ipc = "*"
resvg = "*"
serde = { version = "1", features = ["derive"] }
serde_json = "1"
smithay-client-toolkit = "*"
system-tray = "*"
tiny-skia = "*"
tokio = { version = "1", features = ["rt", "macros", "sync", "time", "net", "process", "io-util"] }
toml = "*"
wayland-client = "*"
zbus = { version = "5", default-features = false, features = ["tokio"] }
