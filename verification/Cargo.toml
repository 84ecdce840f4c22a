[package]
name = "spoterm"
version = "0.1.0"
edition = "2021"
publish = false

[dependencies]
chrono = "0.4"
crossbeam = "=0.7.3"
dirs = "2.0"
failure = "0.1"
hostname = "=0.1.5"
itertools = "=0.8.2"
log = "0.4"
log4rs = "0.10"
rpassword = "4.0"
rspotify = { version = "0.13", features = ["cli"] }
serde = { version = "1.0", features = ["derive"] }
termion = "1.5"
tokio = { version = "1", features = ["full"] }
toml = "0.5"
tui = "0.8"
unicode-width = "=0.1.8"
