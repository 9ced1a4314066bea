[package]
name = "sysshell"
version = "0.1.0"
edition = "2021"
publish = false

[dependencies]
sysinfo = "0.29"
psutil = "3"
nix = { version = "0.26", features = ["signal"] }
pretty-bytes = "0.2"
crossterm = "0.25"
tui = "0.19"
unicode-width = "0.1"
