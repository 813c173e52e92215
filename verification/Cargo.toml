[package]
name = "aic8800_sdio"
version = "0.1.0"
edition = "2021"
publish = false

[dependencies]
ax-driver-base = "=0.3.12"
ax-driver-net = "=0.3.13"
ax-sync = { version = "=0.5.32", features = ["sleep"] }
axpoll = "=0.3.11"
log = "=0.4.35"
