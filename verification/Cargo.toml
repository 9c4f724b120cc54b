[package]
name = "stm32f4_devices"
version = "0.1.0"
edition = "2021"
publish = false

[dependencies]
crc = "3"
display-interface = "0.5"
ili9341 = "0.6"
embedded-hal = "1"
cortex-m = "0.7"
defmt = "*"
bmi160 = "1"
embedded-aht20 = "*"
