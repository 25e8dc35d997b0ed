[package]
name = "nrf52_radio_rs"
version = "0.1.0"
edition = "2021"
publish = false

[dependencies]
nmea = "=0.8.0"
chrono = { version = "=0.4.45", default-features = false }
trouble-host = { version = "=0.8.0", features = ["gatt", "peripheral", "derive"] }
embassy-futures = "=0.1.2"
defmt = "=1.2.0"
embassy-time = "=0.5.1"
embassy-executor = "*"
embassy-nrf = { version = "*", features = ["nrf52840", "time-driver-rtc1"] }
nrf-sdc = "*"
nrf-mpsl = "*"
defmt-rtt = "*"
panic-probe = "*"
cortex-m = "*"
cortex-m-rt = "*"
semihosting = "*"
