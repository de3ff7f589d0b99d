[package]
name = "snapshot-channel"
version = "0.1.0"
edition = "2021"
publish = false

[dependencies]
abs_sync = "=0.1.0"
atomex = "=0.1.0"
atomic_sync = "=0.1.0"
log = "*"
pin-project = "1"
pin-utils = "0.1"
