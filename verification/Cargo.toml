[package]
name = "tmc_new_era"
version = "0.1.0"
edition = "2021"
publish = false

[dependencies]
anyhow = "1"
embassy-executor = "=0.10.0"
embassy-futures = "=0.1.2"
embassy-rp = { version = "=0.10.0", features = ["rp2040", "time-driver"] }
embassy-sync = "=0.8.0"
embassy-time = "=0.5.1"
embassy-usb = { version = "=0.6.0", default-features = false }
embedded-io-async = "=0.7.0"
heapless = "=0.8.0"
panic-halt = "=1.0.0"
serde = { version = "1", features = ["derive"] }
serialport = { version = "=4.10.1", default-features = false }
static_cell = "=2.1.1"
tmc2209 = "=0.3.0"
toml = "=1.1.8"
