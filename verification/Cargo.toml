[package]
name = "determ"
version = "0.1.0"
edition = "2021"
publish = false

[dependencies]
crossterm = "=0.27.0"
libc = "=0.2.191"
libudev = "=0.3.0"
ratatui = "=0.30.2"
serialport = { version = "=4.10.1", default-features = false }
tui-textarea = "=0.4.0"
