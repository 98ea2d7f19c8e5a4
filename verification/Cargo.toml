[package]
name = "portal_paste"
version = "0.1.0"
edition = "2021"
publish = false

[dependencies]
ashpd = { version = "=0.11.1", default-features = false, features = ["async-std"] }
async-io = "=2.6.0"
color-eyre = "=0.6.5"
futures-lite = "=2.6.1"
libc = "=0.2.191"
pollster = "=0.4.0"
reis = "=0.5.0"
tracing = "=0.1.44"
xkbcommon = "=0.8.0"
