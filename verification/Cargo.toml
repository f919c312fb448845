[package]
name = "lum_os_kernel"
version = "0.1.0"
edition = "2021"
publish = false

[dependencies]
pc-keyboard = "=0.9.0"
uart_16550 = "=0.8.1"
bootloader_api = "=0.11.17"
spin = "=0.12.3"
lazy_static = "=1.5.1"
