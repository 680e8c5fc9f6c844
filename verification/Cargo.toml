[package]
name = "macos_bridge"
version = "0.1.0"
edition = "2021"
publish = false

[dependencies]
anyhow = "*"
dirs = "*"
env_logger = "*"
log = "*"
memmap2 = "*"
shiguredo_video_toolbox = "*"
