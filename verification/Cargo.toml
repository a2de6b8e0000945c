[package]
name = "r3"
version = "0.1.0"
edition = "2021"
publish = false

[dependencies]
bimap = "0.6"
xcb = "1"
mio = { version = "0.8", features = ["os-poll", "os-ext"] }
signal-hook = "0.3"
signal-hook-mio = { version = "0.2", features = ["support-v0_8"] }
serde = { version = "1", features = ["derive"] }
serde_json = "1"
clap = { version = "3", features = ["derive"] }
