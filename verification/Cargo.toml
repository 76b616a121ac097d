[package]
name = "gamepad_rs"
version = "0.1.0"
edition = "2021"
publish = false

[dependencies]
defmt = "=1.2.0"
defmt-rtt = "=1.3.1"
panic-probe = { version = "=1.0.0", features = ["print-defmt"] }
embassy-executor = { version = "=0.7.0", features = ["arch-std", "executor-thread"] }
embassy-stm32 = { version = "=0.3.0", features = ["stm32f103c8", "time-driver-any"] }
embassy-sync = "=0.7.2"
embassy-time = "=0.4.0"
embassy-usb = "=0.5.1"
smart-leds = "=0.4.0"
static_cell = "=2.1.1"
