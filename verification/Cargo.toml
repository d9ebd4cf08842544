[package]
name = "wfinfo"
version = "0.1.0"
edition = "2021"
publish = false

[dependencies]
clap = { version = "4", features = ["derive"] }
env_logger = "0.11"
global-hotkey = "0.6"
image = "0.25"
log = "0.4"
notify = "4"
xcap = "0.0"
