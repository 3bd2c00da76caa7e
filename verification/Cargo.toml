[package]
name = "captis"
version = "0.1.0"
edition = "2021"
publish = false

[dependencies]
image = { version = "*", default-features = false, features = ["jpeg"] }
x11rb = { version = "*", features = ["randr", "shm"] }
libc = "*"
winapi = { version = "*", features = ["minwindef", "windef", "wingdi", "winuser"] }
core-graphics = { version = "*", default-features = false }
