[package]
name = "nucleo_peripherals"
version = "0.1.0"
edition = "2021"
publish = false

[dependencies]
stm32f3xx-hal = { version = "=0.6.1", features = ["stm32f303xe"] }
embedded-hal = "=0.2.7"
ssd1306 = "=0.4.1"
embedded-graphics = "=0.6.2"
cortex-m = "=0.6.7"
cortex-m-rt = "=0.6.15"
