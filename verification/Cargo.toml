[package]
name = "disco_lcd"
version = "0.1.0"
edition = "2021"
publish = false

[dependencies]
embedded-graphics = "0.8"
stm32f7xx-hal = { version = "*", features = ["stm32f746"] }
