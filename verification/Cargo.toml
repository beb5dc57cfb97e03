[package]
name = "kibad"
version = "0.1.0"
edition = "2021"
publish = false

[dependencies]
anyhow = "1"
dbus = { version = "0.9", features = ["vendored"] }
hex = "0.4"
input = "0.9"
libc = "0.2"
memmap2 = "0.9"
rand = "0.8"
rusqlite = { version = "0.31", features = ["bundled"] }
rustix = { version = "0.38", features = ["fs"] }
serde = { version = "1", features = ["derive"] }
serde_json = "1"
sha2 = "0.10"
tracing = "0.1"
tracing-subscriber = "0.3"
ureq = "2"
wayland-client = "0.31"
wayland-protocols-wlr = { version = "0.3", features = ["client"] }
