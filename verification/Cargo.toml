[package]
name = "wallpaper_picker"
version = "0.1.0"
edition = "2021"
publish = false

[dependencies]
anyhow = "1"
clap = { version = "4", features = ["derive"] }
config = { version = "0.14", default-features = false, features = ["toml"] }
directories-next = "2"
rand = "0.9"
serde = "1"
serde_derive = "1"
sysinfo = "0.33"
