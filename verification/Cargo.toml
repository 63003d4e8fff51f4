[package]
name = "ps2_emu"
version = "0.1.0"
edition = "2021"
publish = false

[dependencies]
pio = "=0.2.1"
rp-pico = "=0.6.0"
cortex-m = "=0.7.10"
cortex-m-rt = "=0.7.7"
embedded-hal = { version = "=0.2.7", features = ["unproven"] }
defmt = "=0.3.101"
defmt-rtt = "=0.4.2"
panic-probe = { version = "=0.3.2", features = ["print-defmt"] }
