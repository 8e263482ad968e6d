[package]
name = "apod_wallpaper"
version = "0.1.0"
edition = "2021"
publish = false

[dependencies]
chrono = "*"
image = { version = "*", default-features = false, features = ["jpeg", "png", "gif", "webp"] }
rand = "*"
serde = { version = "*", features = ["derive"] }
serde_json = "*"
reqwest = { version = "0.12", default-features = false, features = ["json", "rustls-tls"] }
tokio = { version = "1", features = ["rt-multi-thread", "macros", "sync", "time"] }
libc = "0.2"
