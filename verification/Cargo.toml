[package]
name = "giuroll"
version = "0.1.0"
edition = "2021"
publish = false

[dependencies]
log = "0.4"
windows = { version = "0.48", features = ["Win32_Foundation", "Win32_Networking_WinSock"] }
