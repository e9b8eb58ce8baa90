[package]
name = "f3usb"
version = "0.1.0"
edition = "2021"
publish = false

[dependencies]
cortex-m = { version = "=0.7.10", features = ["critical-section-single-core"] }
cortex-m-rt = "=0.7.7"
critical-section = "=1.2.0"
rtt-target = "=0.6.2"
panic-rtt-target = "0.2"
stm32f3 = { version = "=0.16.0", features = ["stm32f303", "rt", "critical-section"] }
stm32f3xx-hal = { version = "=0.10.0", features = ["stm32f303xc"] }
cortex-m-semihosting = "=0.6.0"
