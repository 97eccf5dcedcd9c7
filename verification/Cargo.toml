[package]
name = "monotonic_scheduler"
version = "0.1.0"
edition = "2021"
publish = false

[dependencies]
embedded-graphics = "=0.7.1"
embedded-hal = "=0.2.7"
nrf52832-hal = "=0.16.1"
cortex-m = "=0.7.7"
cortex-m-rt = "=0.7.7"
rtt-target = { version = "=0.3.1", features = ["cortex-m"] }
