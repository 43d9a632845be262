[package]
name = "epd_driver"
version = "0.1.0"
edition = "2021"
publish = false

[dependencies]
cortex-m = "0.6"
cortex-m-rt = "0.6"
embedded-graphics = "0.7"
embedded-graphics-core = "0.3"
embedded-hal = "0.2"
panic-halt = "0.2"
stm32f1xx-hal = { version = "0.7", features = ["rt", "stm32f103"] }
