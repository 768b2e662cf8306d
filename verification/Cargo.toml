[package]
name = "wl_sniper"
version = "0.1.0"
edition = "2021"
publish = false

[dependencies]
anyhow = "=1.0.104"
clap = { version = "=4.6.7", features = ["derive"] }
evdev = "=0.13.2"
hidapi = { version = "=2.6.7", default-features = false, features = ["linux-native-basic-udev"] }
