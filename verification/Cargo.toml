[package]
name = "usage-tray"
version = "0.1.0"
edition = "2021"
publish = false

[dependencies]
serde_json = "1"
jiff = "0.2"
toml = "0.9"
dirs = "6"
libc = "0.2"
ureq = "3"
ksni = { version = "0.3", features = ["blocking"] }
notify-rust = "4"
zbus = "5"
tiny-skia = "0.11"
