[package]
name = "swarm_lib"
version = "0.1.0"
edition = "2021"
publish = false

[dependencies]
cortex-m = "=0.7.10"
cyw43 = "=0.7.0"
cyw43-pio = "=0.10.0"
defmt = "=1.2.0"
defmt-rtt = "=1.3.1"
embassy-executor = { version = "=0.9.1", features = ["arch-std", "executor-thread"] }
embassy-futures = "=0.1.2"
embassy-net = { version = "=0.9.1", features = ["tcp", "dhcpv4", "proto-ipv4", "medium-ethernet"] }
embassy-rp = { version = "=0.10.0", features = ["rp2040", "time-driver"] }
embassy-sync = "=0.8.0"
embassy-time = "=0.5.1"
embassy-usb-logger = "=0.6.0"
embedded-graphics = "=0.8.1"
embedded-hal-async = "=1.0.0"
embedded-io-async = "=0.7.0"
fixed = "=1.31.0"
log = "=0.4.35"
static_cell = "=2.1.1"
