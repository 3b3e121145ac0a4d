[package]
name = "pico_canvas"
version = "0.1.0"
edition = "2021"
publish = false

[dependencies]
embedded-graphics = "=0.8.2"
micromath = "=2.1.0"
mipidsi = "=0.9.0"
embedded-hal-bus = "=0.3.0"
ft6x06-rs = "=0.3.0"
embassy-executor = "=0.9.1"
embassy-time = "=0.5.1"
defmt = "=1.2.0"
defmt-rtt = "=1.3.1"
cortex-m = "=0.7.10"
panic-probe = { version = "=1.0.0", features = ["print-defmt"] }
