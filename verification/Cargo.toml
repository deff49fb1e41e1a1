[package]
name = "touchtron"
version = "0.1.0"
edition = "2021"
publish = false

[dependencies]
cortex-m = "=0.6.7"
cortex-m-rtfm = "=0.5.3"
stm32-usbd = "=0.5.1"
stm32f0xx-hal = { version = "=0.17.1", features = ["stm32f072", "stm32-usbd", "rt"] }
usb-device = "=0.2.9"
usbd-serial = "=0.1.1"
