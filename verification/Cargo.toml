[package]
name = "arbor"
version = "0.1.0"
edition = "2021"
publish = false

[dependencies]
slotmap = "=1.1.1"
ash = "=0.38.0"
vk-mem = "=0.4.0"
anyhow = "=1.0.104"
log = "=0.4.34"
log4rs = "=1.4.0"
winit = "=0.30.13"
ash-window = "=0.13.0"
raw-window-handle = "=0.6.2"
crossbeam-channel = "=0.5.17"
bytemuck = "=1.25.2"
