[package]
name = "et"
version = "0.1.0"
edition = "2021"
publish = false

[dependencies]
anyhow = "1"
base64 = "0.22"
clap = { version = "4", features = ["derive"] }
configparser = "3"
ctrlc = "3"
libc = "0.2"
nix = { version = "0.29", features = ["fs", "ioctl", "poll", "process", "signal", "socket", "term", "user"] }
parking_lot = "0.12"
prost = "0.13"
rand = "0.8"
socket2 = "0.5"
sodiumoxide = "0.2"
thiserror = "1"
tracing = "0.1"
tracing-subscriber = "0.3"
uuid = { version = "1", features = ["v4"] }
