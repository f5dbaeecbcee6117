[package]
name = "vmux"
version = "0.1.0"
edition = "2021"
publish = false

[dependencies]
anyhow = "=1.0.104"
clap = { version = "=4.6.7", features = ["derive"] }
crossterm = "=0.29.0"
daemonize = "=0.5.0"
dirs = "=7.0.0"
libc = "=0.2.191"
portable-pty = "=0.9.0"
regex = "=1.13.1"
serde = { version = "=1.0.229", features = ["derive"] }
serde_json = "=1.0.154"
shell-words = "=1.1.1"
toml = "0.9"
vt100 = "=0.16.2"
