[package]
name = "hal_sim"
version = "0.1.0"
edition = "2021"
publish = false

[dependencies]
heapless = { version = "=0.8.0", features = ["serde"] }
serde = { version = "=1.0.229", features = ["derive"] }
log = "=0.4.34"
channel-bridge = "=0.9.0"
embassy-futures = "=0.1.2"
embassy-sync = "=0.6.2"
embedded-hal = { version = "=0.2.7", features = ["unproven"] }
nb = "=1.1.0"
embedded-graphics-core = "=0.4.1"
